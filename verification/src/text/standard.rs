//! What the standard library makes of a text.

use vstd::prelude::*;

use crate::text::case::{ascii, ascii_lowered};

verus! {

/// What [`str::to_lowercase`] makes of a text.
pub uninterp spec fn lowercased(text: Seq<char>) -> Seq<char>;

/// [`str::to_lowercase`]: the text with every character replaced by its
/// lowercase equivalent under the Unicode tables of the standard library. The
/// result depends on the text alone, and in an ASCII text the letters `A` to
/// `Z` become `a` to `z` and nothing else changes. Which characters beyond
/// ASCII change, and into what, is not stated.
#[verifier::external_body]
pub(crate) fn to_lowercase(text: &str) -> (result: String)
    ensures
        result@ == lowercased(text@),
        ascii(text@) ==> result@ == ascii_lowered(text@),
{
    text.to_lowercase()
}

/// How the `{:?}` format shows a text.
pub uninterp spec fn debug_quoted(text: Seq<char>) -> Seq<char>;

/// `format!("{:?}", text)`: the text in double quotes, with quotes,
/// backslashes and unprintable characters escaped. The result depends on the
/// text alone. Which characters are escaped, and how, is not stated.
#[verifier::external_body]
pub(crate) fn debug_quote(text: &str) -> (result: String)
    ensures
        result@ == debug_quoted(text@),
{
    format!("{text:?}")
}

} // verus!
