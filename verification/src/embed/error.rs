//! Failures from an embedding backend.

use vstd::prelude::*;

use crate::text::search::{
    a_part_of_a_part_occurs, a_sum_starts_and_ends_with_its_parts, ends_with, occurs,
    what_is_put_between_occurs,
};

verus! {

/// Failures from an embedding backend.
#[derive(Debug)]
#[non_exhaustive]
pub enum EmbedError {
    /// The backend could not load its model or run inference.
    Backend {
        /// Which backend failed.
        backend: &'static str,
        /// What it said.
        message: String,
    },
    /// The blocking embedding task panicked or was cancelled.
    Join {
        /// What became of it.
        message: String,
    },
}

impl EmbedError {
    /// What the error says.
    pub open spec fn message(self) -> Seq<char> {
        match self {
            EmbedError::Backend { backend, message } => "embedder "@ + backend@ + ": "@ + message@,
            EmbedError::Join { message } => "embedding task failed: "@ + message@,
        }
    }

    /// What the error says.
    pub fn text(&self) -> (text: String)
        ensures
            text@ == self.message(),
    {
        match self {
            EmbedError::Backend { backend, message } => "embedder ".to_owned().concat(
                backend,
            ).concat(": ").concat(message.as_str()),
            EmbedError::Join { message } => "embedding task failed: ".to_owned().concat(
                message.as_str(),
            ),
        }
    }
}

/// An error says what it is about: the backend and its words.
pub proof fn an_error_says_what_it_is_about(error: EmbedError)
    ensures
        error matches EmbedError::Backend { backend, message } ==> ends_with(
            error.message(),
            message@,
        ) && occurs(error.message(), backend@),
        error matches EmbedError::Join { message } ==> ends_with(error.message(), message@),
{
    match error {
        EmbedError::Backend { backend, message } => {
            let lead = "embedder "@ + backend@ + ": "@;
            a_sum_starts_and_ends_with_its_parts(lead, message@);
            what_is_put_between_occurs("embedder "@, backend@, ": "@);
            a_part_of_a_part_occurs(error.message(), lead, backend@);
        },
        EmbedError::Join { message } => {
            a_sum_starts_and_ends_with_its_parts("embedding task failed: "@, message@);
        },
    }
}

} // verus!
