//! Choosing an embedding backend from configuration.

use vstd::prelude::*;

use crate::embed::accelerator::Accelerator;
use crate::embed::model::Model;
use crate::server::config::{Config, EmbedderKind};
use crate::text::chars::text_of;
use crate::text::path::{join_path, joined_path};

verus! {

/// The variable that holds the bearer token of a remote endpoint. A variable
/// and not a flag: an argument is readable by every process on the host, and a
/// local endpoint needs none.
pub const API_KEY_ENV: &'static str = "AGMEM_API_KEY";

/// A backend to be brought up.
#[derive(Debug, PartialEq, Eq)]
pub enum Backend {
    /// A model run by llama.cpp.
    Llama {
        model: Model,
        /// Where models live unless the environment says otherwise.
        model_dir: String,
        accelerator: Accelerator,
    },
    /// The quantized model over ONNX.
    Fastembed {
        /// Where models live unless the environment says otherwise.
        model_dir: String,
    },
    /// An endpoint that speaks the embeddings API.
    Api { url: String, model_name: String, key: Option<String> },
    /// No vectors.
    Noop,
}

/// Where models live unless the environment says otherwise: under the data
/// directory, so that everything agmem wrote sits in one place to move or
/// delete.
pub fn model_dir(cfg: &Config) -> (dir: String)
    ensures
        dir@ == joined_path(cfg.data_dir@, "models"@),
{
    join_path(cfg.data_dir.as_str(), "models")
}

/// The key to send, if there is one worth sending.
pub open spec fn usable(key: Option<Seq<char>>) -> Option<Seq<char>> {
    match key {
        Some(key) => if key.len() == 0 {
            None
        } else {
            Some(key)
        },
        None => None,
    }
}

/// The backend this run will use. `key` is what [`API_KEY_ENV`] holds: it is
/// handed to the backend, never into a configuration or a log.
pub fn choose_backend(cfg: &Config, key: Option<String>) -> (backend: Backend)
    ensures
        match (cfg.embedder, backend) {
            (EmbedderKind::Llama, Backend::Llama { model, model_dir, accelerator }) => model
                == cfg.model && model_dir@ == joined_path(cfg.data_dir@, "models"@) && accelerator
                == cfg.accelerator,
            (EmbedderKind::Fastembed, Backend::Fastembed { model_dir }) => model_dir@
                == joined_path(cfg.data_dir@, "models"@),
            (EmbedderKind::Api, Backend::Api { url, model_name, key: sent }) => url@
                == cfg.api.url@ && model_name@ == cfg.api.model@ && text_of(sent) == usable(text_of(key)),
            (EmbedderKind::Noop, Backend::Noop) => true,
            _ => false,
        },
{
    match cfg.embedder {
        EmbedderKind::Llama => Backend::Llama {
            model: cfg.model,
            model_dir: model_dir(cfg),
            accelerator: cfg.accelerator,
        },
        EmbedderKind::Fastembed => Backend::Fastembed { model_dir: model_dir(cfg) },
        EmbedderKind::Api => {
            let sent = match key {
                Some(key) => if key.as_str().is_empty() {
                    None
                } else {
                    Some(key)
                },
                None => None,
            };
            Backend::Api {
                url: cfg.api.url.clone(),
                model_name: cfg.api.model.clone(),
                key: sent,
            }
        },
        EmbedderKind::Noop => Backend::Noop,
    }
}

/// A key is sent as it is, and an empty one not at all.
pub proof fn an_empty_key_is_not_sent(key: Seq<char>)
    ensures
        key.len() > 0 ==> usable(Some(key)) == Some(key),
        key.len() == 0 ==> usable(Some(key)) is None,
        usable(None) is None,
{
}

} // verus!
