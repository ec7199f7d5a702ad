//! A GGUF model loaded on its own thread.

use vstd::prelude::*;

use crate::embed::error::EmbedError;
use crate::text::number::{decimal, to_decimal};

verus! {

/// The name of a model's thread.
pub fn thread_name(id: &str) -> (name: String)
    ensures
        name@ == "llama-"@ + id@,
{
    "llama-".to_owned().concat(id)
}

/// Check that the weights in a file have the width they are loaded as.
///
/// # Errors
/// What to say of a file with another width.
pub fn check_file(path: &str, found: usize, dim: usize) -> (result: Result<(), String>)
    ensures
        match result {
            Ok(_) => found == dim,
            Err(message) => found != dim && message@ == path@ + " is "@ + decimal(found as nat)
                + "-dimensional, expected "@ + decimal(dim as nat),
        },
{
    if found == dim {
        return Ok(());
    }
    let width = to_decimal(found as u64);
    let expected = to_decimal(dim as u64);
    Err(
        path.to_owned().concat(" is ").concat(width.as_str()).concat(
            "-dimensional, expected ",
        ).concat(expected.as_str()),
    )
}

/// The one vector of a query: the last of those that came back.
///
/// # Errors
/// When none did.
pub fn query_vector(backend: &'static str, vectors: Vec<Vec<u32>>) -> (result: Result<
    Vec<u32>,
    EmbedError,
>)
    ensures
        match result {
            Ok(vector) => vectors@.len() > 0 && vector == vectors@.last(),
            Err(EmbedError::Backend { backend: named, message }) => vectors@.len() == 0 && named@
                == backend@ && message@ == "model returned no vector for the query"@,
            Err(_) => false,
        },
{
    let mut vectors = vectors;
    match vectors.pop() {
        Some(vector) => Ok(vector),
        None => Err(
            EmbedError::Backend {
                backend,
                message: "model returned no vector for the query".to_owned(),
            },
        ),
    }
}

} // verus!
