//! Text set in columns.

use vstd::prelude::*;

use crate::text::chars::to_chars;

verus! {

/// `n` spaces.
pub open spec fn spaces(n: nat) -> Seq<char> {
    Seq::new(n, |i: int| ' ')
}

/// A text in a column of `width`, at its left edge. A longer one runs over.
pub open spec fn padded_end(s: Seq<char>, width: nat) -> Seq<char> {
    if s.len() < width {
        s + spaces((width - s.len()) as nat)
    } else {
        s
    }
}

/// A text in a column of `width`, at its right edge. A longer one runs over.
pub open spec fn padded_start(s: Seq<char>, width: nat) -> Seq<char> {
    if s.len() < width {
        spaces((width - s.len()) as nat) + s
    } else {
        s
    }
}

/// The spaces that `text` leaves in a column of `width`.
fn fill(text: &str, width: usize) -> (blank: String)
    ensures
        blank@ == spaces(if text@.len() < width {
            (width - text@.len()) as nat
        } else {
            0
        }),
{
    let taken = to_chars(text).len();
    let mut blank = String::new();
    let mut i: usize = taken;
    while i < width
        invariant
            taken <= i,
            taken < width ==> i <= width,
            taken >= width ==> i == taken,
            blank@ == spaces((i - taken) as nat),
        decreases width - i,
    {
        blank.push(' ');
        i += 1;
        assert(blank@ =~= spaces((i - taken) as nat));
    }
    blank
}

/// `text` at the left edge of a column of `width`.
pub fn pad_end(text: &str, width: usize) -> (padded: String)
    ensures
        padded@ == padded_end(text@, width as nat),
{
    let blank = fill(text, width);
    assert(text@ + spaces(0) =~= text@);
    text.to_owned().concat(blank.as_str())
}

/// `text` at the right edge of a column of `width`.
pub fn pad_start(text: &str, width: usize) -> (padded: String)
    ensures
        padded@ == padded_start(text@, width as nat),
{
    let blank = fill(text, width);
    assert(spaces(0) + text@ =~= text@);
    blank.concat(text)
}

/// A column is filled with spaces and nothing else, on the far side of the
/// text, and a text that fills it already is left as it is.
pub proof fn a_column_is_filled_with_spaces(s: Seq<char>, width: nat, i: int)
    ensures
        padded_end(s, width).len() == if s.len() < width {
            width
        } else {
            s.len()
        },
        padded_start(s, width).len() == padded_end(s, width).len(),
        padded_end(s, width).take(s.len() as int) == s,
        padded_start(s, width).skip(padded_start(s, width).len() - s.len()) == s,
        s.len() <= i < width ==> padded_end(s, width)[i] == ' ',
        0 <= i < width - s.len() ==> padded_start(s, width)[i] == ' ',
{
    assert(padded_end(s, width).take(s.len() as int) =~= s);
    assert(padded_start(s, width).skip(padded_start(s, width).len() - s.len()) =~= s);
}

} // verus!
