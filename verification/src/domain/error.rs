//! Error taxonomy for the domain layer.

use vstd::prelude::*;

use crate::text::search::{
    a_part_of_a_part_occurs, a_sum_starts_and_ends_with_its_parts, ends_with, occurs,
    what_is_put_between_occurs,
};
use crate::text::standard::{debug_quote, debug_quoted};

verus! {

/// Errors produced by domain-level validation and processing.
#[derive(Debug)]
#[non_exhaustive]
pub enum CoreError {
    /// A space name failed slug validation (`[a-z0-9-_]{1,64}`).
    InvalidSpaceName(String),
    /// A record id was not the ULID half of a SurrealDB record id: most
    /// often a full `table:id` that should have been stripped first.
    InvalidRecordId(String),
    /// A stored or supplied string named no variant of a domain enum: a row
    /// written by a newer agmem, or a hand-edited store.
    UnknownVariant {
        /// Which enum was being parsed.
        name: &'static str,
        /// The spelling that matched nothing.
        value: String,
    },
}

impl CoreError {
    /// What the error says.
    pub open spec fn message(self) -> Seq<char> {
        match self {
            CoreError::InvalidSpaceName(name) => "invalid space name: "@ + debug_quoted(name@),
            CoreError::InvalidRecordId(id) => "invalid record id: "@ + debug_quoted(id@)
                + "; expected a 26-character ULID"@,
            CoreError::UnknownVariant { name, value } => "unknown "@ + name@ + ": "@
                + debug_quoted(value@),
        }
    }

    /// What the error says.
    pub fn text(&self) -> (text: String)
        ensures
            text@ == self.message(),
    {
        match self {
            CoreError::InvalidSpaceName(name) => "invalid space name: ".to_owned().concat(
                debug_quote(name.as_str()).as_str(),
            ),
            CoreError::InvalidRecordId(id) => "invalid record id: ".to_owned().concat(
                debug_quote(id.as_str()).as_str(),
            ).concat("; expected a 26-character ULID"),
            CoreError::UnknownVariant { name, value } => "unknown ".to_owned().concat(name).concat(
                ": ",
            ).concat(debug_quote(value.as_str()).as_str()),
        }
    }
}

/// An error repeats what was wrong, in quotes.
pub proof fn an_error_repeats_what_was_wrong(error: CoreError)
    ensures
        error matches CoreError::InvalidSpaceName(name) ==> ends_with(
            error.message(),
            debug_quoted(name@),
        ),
        error matches CoreError::InvalidRecordId(id) ==> occurs(error.message(), debug_quoted(id@)),
        error matches CoreError::UnknownVariant { name, value } ==> ends_with(
            error.message(),
            debug_quoted(value@),
        ) && occurs(error.message(), name@),
{
    match error {
        CoreError::InvalidSpaceName(name) => {
            a_sum_starts_and_ends_with_its_parts("invalid space name: "@, debug_quoted(name@));
        },
        CoreError::InvalidRecordId(id) => {
            what_is_put_between_occurs(
                "invalid record id: "@,
                debug_quoted(id@),
                "; expected a 26-character ULID"@,
            );
        },
        CoreError::UnknownVariant { name, value } => {
            let lead = "unknown "@ + name@ + ": "@;
            a_sum_starts_and_ends_with_its_parts(lead, debug_quoted(value@));
            what_is_put_between_occurs("unknown "@, name@, ": "@);
            a_part_of_a_part_occurs(error.message(), lead, name@);
        },
    }
}

} // verus!
