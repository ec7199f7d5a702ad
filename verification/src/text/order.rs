//! The order of texts: character by character.

use vstd::prelude::*;

use crate::text::chars::to_chars;

verus! {

/// `a` comes before `b`.
pub open spec fn precedes(a: Seq<char>, b: Seq<char>) -> bool
    decreases a.len(),
{
    if b.len() == 0 {
        false
    } else if a.len() == 0 {
        true
    } else if a[0] == b[0] {
        precedes(a.skip(1), b.skip(1))
    } else {
        a[0] < b[0]
    }
}

/// Whether `a` comes before `b`.
pub fn comes_before(a: &str, b: &str) -> (result: bool)
    ensures
        result == precedes(a@, b@),
{
    let left = to_chars(a);
    let right = to_chars(b);
    let mut i: usize = 0;
    assert(a@.skip(0) =~= a@);
    assert(b@.skip(0) =~= b@);
    while i < left.len() && i < right.len() && left[i] == right[i]
        invariant
            i <= left@.len(),
            i <= right@.len(),
            left@ == a@,
            right@ == b@,
            precedes(a@, b@) == precedes(a@.skip(i as int), b@.skip(i as int)),
        decreases left@.len() - i,
    {
        assert(a@.skip(i as int).skip(1) =~= a@.skip(i + 1));
        assert(b@.skip(i as int).skip(1) =~= b@.skip(i + 1));
        i += 1;
    }
    if i >= right.len() {
        false
    } else if i >= left.len() {
        true
    } else {
        left[i] < right[i]
    }
}

/// Of two texts one comes first, unless they are the same.
pub proof fn precedes_is_total(a: Seq<char>, b: Seq<char>)
    ensures
        precedes(a, b) || precedes(b, a) || a == b,
        !(precedes(a, b) && precedes(b, a)),
        !precedes(a, a),
    decreases a.len(),
{
    if a.len() > 0 {
        precedes_is_total(a.skip(1), a.skip(1));
        if b.len() > 0 && a[0] == b[0] {
            precedes_is_total(a.skip(1), b.skip(1));
            if a.skip(1) == b.skip(1) {
                assert(a =~= seq![a[0]] + a.skip(1));
                assert(b =~= seq![b[0]] + b.skip(1));
            }
        }
    } else if b.len() == 0 {
        assert(a =~= b);
    }
}

/// What comes before a text comes before all that follow it.
pub proof fn precedes_is_transitive(a: Seq<char>, b: Seq<char>, c: Seq<char>)
    requires
        precedes(a, b),
        precedes(b, c),
    ensures
        precedes(a, c),
    decreases a.len(),
{
    if a.len() > 0 && b.len() > 0 && c.len() > 0 && a[0] == b[0] && b[0] == c[0] {
        precedes_is_transitive(a.skip(1), b.skip(1), c.skip(1));
    }
}

/// Texts are ordered by the first character in which they differ; one that
/// ends there comes first.
pub proof fn texts_are_ordered_where_they_differ(
    start: Seq<char>,
    a: Seq<char>,
    b: Seq<char>,
)
    ensures
        precedes(start + a, start + b) <==> precedes(a, b),
        a.len() > 0 && b.len() > 0 && a[0] != b[0] ==> (precedes(a, b) <==> a[0] < b[0]),
        b.len() > 0 ==> precedes(start, start + b),
    decreases start.len(),
{
    if start.len() == 0 {
        assert(start + a =~= a);
        assert(start + b =~= b);
    } else {
        let rest = start.skip(1);
        texts_are_ordered_where_they_differ(rest, a, b);
        assert((start + a).skip(1) =~= rest + a);
        assert((start + b).skip(1) =~= rest + b);
        assert((start + a)[0] == start[0] && (start + b)[0] == start[0]);
    }
}

} // verus!
