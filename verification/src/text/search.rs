//! Comparing texts and finding one inside another.

use vstd::prelude::*;
use vstd::slice::slice_subrange;

use crate::text::chars::to_chars;

verus! {

/// Whether two texts hold the same characters.
pub fn same(a: &str, b: &str) -> (result: bool)
    ensures
        result == (a@ == b@),
{
    a.to_owned() == b.to_owned()
}

/// `p` stands in `t` at `i`.
pub open spec fn occurs_at(t: Seq<char>, p: Seq<char>, i: int) -> bool {
    0 <= i && i + p.len() <= t.len() && t.subrange(i, i + p.len()) == p
}

/// `t` starts with `p`.
pub open spec fn starts_with(t: Seq<char>, p: Seq<char>) -> bool {
    occurs_at(t, p, 0)
}

/// `t` ends with `p`.
pub open spec fn ends_with(t: Seq<char>, p: Seq<char>) -> bool {
    occurs_at(t, p, t.len() - p.len())
}

/// `p` stands somewhere in `t`.
pub open spec fn occurs(t: Seq<char>, p: Seq<char>) -> bool {
    exists|i: int| occurs_at(t, p, i)
}

/// Whether `p` stands in `t` at `i`.
pub fn stands_at(t: &[char], p: &[char], i: usize) -> (result: bool)
    ensures
        result == occurs_at(t@, p@, i as int),
{
    if p.len() > t.len() || i > t.len() - p.len() {
        return false;
    }
    let n: usize = t.len();
    let mut k: usize = 0;
    while k < p.len()
        invariant
            i + p@.len() <= n == t@.len(),
            k <= p@.len(),
            forall|j: int| 0 <= j < k ==> t@[i + j] == #[trigger] p@[j],
        decreases p@.len() - k,
    {
        if t[i + k] != p[k] {
            assert(t@.subrange(i as int, i + p@.len())[k as int] != p@[k as int]);
            return false;
        }
        k += 1;
    }
    assert(t@.subrange(i as int, i + p@.len()) =~= p@);
    true
}

/// Whether `text` starts with `prefix`.
pub fn has_prefix(text: &str, prefix: &str) -> (result: bool)
    ensures
        result == starts_with(text@, prefix@),
{
    let t = to_chars(text);
    let p = to_chars(prefix);
    stands_at(t.as_slice(), p.as_slice(), 0)
}

/// Whether the characters end with `suffix`.
pub fn has_suffix(t: &[char], suffix: &[char]) -> (result: bool)
    ensures
        result == ends_with(t@, suffix@),
{
    if suffix.len() > t.len() {
        return false;
    }
    stands_at(t, suffix, t.len() - suffix.len())
}

/// Where `p` stands first in `t`, at or after `from`.
pub fn find_from(t: &[char], p: &[char], from: usize) -> (found: Option<usize>)
    ensures
        match found {
            Some(i) => from <= i && occurs_at(t@, p@, i as int) && forall|j: int|
                from <= j < i ==> !occurs_at(t@, p@, j),
            None => forall|j: int| from <= j ==> !occurs_at(t@, p@, j),
        },
{
    let mut i: usize = from;
    while i <= t.len() && t.len() - i >= p.len()
        invariant
            from <= i,
            forall|j: int| from <= j < i ==> !occurs_at(t@, p@, j),
        decreases t@.len() + 1 - i,
    {
        if stands_at(t, p, i) {
            return Some(i);
        }
        if i == t.len() {
            return None;
        }
        i += 1;
    }
    None
}

/// Whether `p` stands anywhere in `text`.
pub fn holds(text: &str, part: &str) -> (result: bool)
    ensures
        result == occurs(text@, part@),
{
    let t = to_chars(text);
    let p = to_chars(part);
    let found = find_from(t.as_slice(), p.as_slice(), 0);
    match found {
        Some(i) => {
            assert(occurs_at(text@, part@, i as int));
            true
        },
        None => false,
    }
}

/// What stands between two other texts stands in the whole.
pub proof fn what_is_put_between_occurs(before: Seq<char>, part: Seq<char>, after: Seq<char>)
    ensures
        occurs_at(before + part + after, part, before.len() as int),
        occurs(before + part + after, part),
{
    let whole = before + part + after;
    assert(whole.subrange(before.len() as int, (before.len() + part.len()) as int) =~= part);
    assert(occurs_at(whole, part, before.len() as int));
}

/// A part of a part is a part of the whole.
pub proof fn a_part_of_a_part_occurs(whole: Seq<char>, part: Seq<char>, inner: Seq<char>)
    requires
        occurs(whole, part),
        occurs(part, inner),
    ensures
        occurs(whole, inner),
{
    let i = choose|i: int| occurs_at(whole, part, i);
    let j = choose|j: int| occurs_at(part, inner, j);
    assert(whole.subrange(i + j, i + j + inner.len()) =~= part.subrange(j, j + inner.len()));
    assert(occurs_at(whole, inner, i + j));
}

/// Every stretch of a text is a part of it.
pub proof fn a_stretch_occurs(whole: Seq<char>, from: int, to: int)
    requires
        0 <= from <= to <= whole.len(),
    ensures
        occurs(whole, whole.subrange(from, to)),
{
    assert(occurs_at(whole, whole.subrange(from, to), from));
}

/// A text starts with what it was started from, and ends with what was added.
pub proof fn a_sum_starts_and_ends_with_its_parts(a: Seq<char>, b: Seq<char>)
    ensures
        starts_with(a + b, a),
        ends_with(a + b, b),
        occurs(a + b, a),
        occurs(a + b, b),
{
    assert((a + b).subrange(0, a.len() as int) =~= a);
    assert((a + b).subrange(a.len() as int, (a + b).len() as int) =~= b);
    assert(occurs_at(a + b, a, 0));
    assert(occurs_at(a + b, b, a.len() as int));
}

/// A start of a start is a start of the whole.
pub proof fn a_start_of_a_start_is_a_start(whole: Seq<char>, part: Seq<char>, inner: Seq<char>)
    requires
        starts_with(whole, part),
        starts_with(part, inner),
    ensures
        starts_with(whole, inner),
{
    assert(whole.subrange(0, inner.len() as int) =~= part.subrange(0, inner.len() as int));
}

/// A part stands in a text where its characters do, one by one; a start stands
/// at the start, an end at the end, and any part somewhere.
pub proof fn a_part_stands_where_its_characters_do(t: Seq<char>, p: Seq<char>, i: int)
    ensures
        occurs_at(t, p, i) <==> 0 <= i && i + p.len() <= t.len() && (forall|k: int|
            0 <= k < p.len() ==> t[i + k] == #[trigger] p[k]),
        starts_with(t, p) <==> occurs_at(t, p, 0),
        ends_with(t, p) <==> occurs_at(t, p, t.len() - p.len()),
        occurs(t, p) <==> exists|k: int| 0 <= k && #[trigger] occurs_at(t, p, k),
{
    if occurs_at(t, p, i) {
        assert forall|k: int| 0 <= k < p.len() implies t[i + k] == #[trigger] p[k] by {
            assert(t.subrange(i, i + p.len())[k] == p[k]);
        }
    }
    if 0 <= i && i + p.len() <= t.len() && (forall|k: int|
        0 <= k < p.len() ==> t[i + k] == #[trigger] p[k]) {
        assert(t.subrange(i, i + p.len()) =~= p);
    }
}

} // verus!
