//! potion-base-8M: a static model, without an inference runtime.
//!
//! Inference is a table lookup and a mean, so there is no session to warm. The
//! model is symmetric: passages and queries are embedded as they are.

use vstd::prelude::*;

use crate::embed::error::EmbedError;
use crate::text::number::{decimal, to_decimal};

verus! {

/// What the store records of the model.
pub const MODEL_ID: &'static str = "potion-base-8M";

/// Vector width.
pub const DIM: usize = 256;

/// The repository the weights come from.
pub const REPO: &'static str = "minishlab/potion-base-8M";

/// Where the weights are loaded from: a local directory that exists is taken
/// as it is and the network is never touched; else the repository.
pub fn source(local_dir: Option<String>, exists: bool) -> (from: String)
    ensures
        from@ == (match local_dir {
            Some(dir) => if exists {
                dir@
            } else {
                "minishlab/potion-base-8M"@
            },
            None => "minishlab/potion-base-8M"@,
        }),
{
    match local_dir {
        Some(dir) => if exists {
            dir
        } else {
            REPO.to_owned()
        },
        None => REPO.to_owned(),
    }
}

/// Check the width a loaded model embeds into. The width is a property of the
/// weights, so one embedding proves it at load time rather than at first use.
///
/// # Errors
/// When it is another than [`DIM`].
pub fn check_probe(source: &str, width: usize) -> (result: Result<(), EmbedError>)
    ensures
        match result {
            Ok(_) => width == 256,
            Err(EmbedError::Backend { backend, message }) => width != 256 && backend@ == MODEL_ID@
                && message@ == "model at "@ + source@ + " embeds into "@ + decimal(width as nat)
                + " dimensions, expected "@ + decimal(256),
            Err(_) => false,
        },
{
    if width == DIM {
        return Ok(());
    }
    let found = to_decimal(width as u64);
    let expected = to_decimal(DIM as u64);
    Err(
        EmbedError::Backend {
            backend: MODEL_ID,
            message: "model at ".to_owned().concat(source).concat(" embeds into ").concat(
                found.as_str(),
            ).concat(" dimensions, expected ").concat(expected.as_str()),
        },
    )
}

} // verus!
