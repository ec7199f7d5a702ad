//! BGE small English v1.5, quantized, over ONNX.
//!
//! The model is asymmetric: it was trained with `passage:` and `query:`
//! markers, and nothing below this module adds them.

use vstd::prelude::*;

use crate::embed::candidates::{
    check_widths, first_wrong, mark_all, marked, no_wrong_width_means_all_agree,
};
use crate::embed::error::EmbedError;
use crate::text::chars::texts;
use crate::text::number::decimal;

verus! {

/// What the store records of the model.
pub const MODEL_ID: &'static str = "bge-small-en-v1.5-q";

/// Vector width.
pub const DIM: usize = 384;

/// Marks stored text, per the model's training.
pub const PASSAGE_PREFIX: &'static str = "passage: ";

/// Marks the search side, per the model's training.
pub const QUERY_PREFIX: &'static str = "query: ";

/// The variable that names the cache of downloaded models.
pub const CACHE_DIR_ENV: &'static str = "FASTEMBED_CACHE_DIR";

/// The cache directory to set on a model, if one is to be set at all: the
/// environment stays authoritative, and only without it is the fallback used.
pub fn cache_dir_to_set(named: bool, fallback: Option<String>) -> (dir: Option<String>)
    ensures
        dir == (if named {
            None
        } else {
            fallback
        }),
{
    if named {
        None
    } else {
        fallback
    }
}

/// Local inference over a quantized BGE model: what goes in, and what is made
/// of what comes out.
#[derive(Debug, Clone, Copy)]
pub struct FastembedBackend;

/// What is wrong with the vectors of a run, by their widths.
pub open spec fn complaint(widths: Seq<usize>) -> Option<Seq<char>> {
    match first_wrong(widths, DIM) {
        Some(wrong) => Some(
            "model returned "@ + decimal(wrong as nat) + "-dimensional vectors, expected "@
                + decimal(DIM as nat),
        ),
        None => None,
    }
}

impl FastembedBackend {
    /// Vector width.
    pub fn dim(&self) -> (dim: usize)
        ensures
            dim == 384,
    {
        DIM
    }

    /// The model's name.
    pub fn model_id(&self) -> (id: &'static str)
        ensures
            id@ == "bge-small-en-v1.5-q"@,
    {
        MODEL_ID
    }

    /// Passages as the model takes them.
    pub fn passages(&self, passages: &[String]) -> (inputs: Vec<String>)
        ensures
            texts(inputs@) == marked("passage: "@, texts(passages@)),
    {
        mark_all(PASSAGE_PREFIX, passages)
    }

    /// A query as the model takes it.
    pub fn query(&self, query: &str) -> (input: String)
        ensures
            input@ == "query: "@ + query@,
    {
        QUERY_PREFIX.to_owned().concat(query)
    }

    /// Check the widths of the vectors the model returned.
    ///
    /// # Errors
    /// When one of them is not the width the store depends on.
    pub fn check(&self, widths: &[usize]) -> (result: Result<(), EmbedError>)
        ensures
            match result {
                Ok(_) => complaint(widths@) is None,
                Err(EmbedError::Backend { backend, message }) => backend@ == MODEL_ID@ && complaint(
                    widths@,
                ) == Some(message@),
                Err(_) => false,
            },
    {
        match check_widths(widths, DIM) {
            Ok(_) => Ok(()),
            Err(message) => Err(EmbedError::Backend { backend: MODEL_ID, message }),
        }
    }
}

/// Vectors are complained of exactly where one of them is not as wide as the
/// model's.
pub proof fn only_a_wrong_width_is_complained_of(widths: Seq<usize>)
    ensures
        complaint(widths) is None <==> (forall|i: int|
            0 <= i < widths.len() ==> #[trigger] widths[i] == 384),
        first_wrong(widths, 384) matches Some(wrong) ==> complaint(widths) == Some(
            "model returned "@ + decimal(wrong as nat) + "-dimensional vectors, expected "@
                + decimal(384),
        ),
{
    no_wrong_width_means_all_agree(widths, DIM);
}

} // verus!
