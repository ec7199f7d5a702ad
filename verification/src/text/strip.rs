//! Taking one character off the ends of a text.

use vstd::prelude::*;
use vstd::slice::slice_subrange;

verus! {

/// Without the `c`s at the front.
pub open spec fn stripped_start(s: Seq<char>, c: char) -> Seq<char>
    decreases s.len(),
{
    if s.len() > 0 && s[0] == c {
        stripped_start(s.skip(1), c)
    } else {
        s
    }
}

/// Without the `c`s at the end.
pub open spec fn stripped_end(s: Seq<char>, c: char) -> Seq<char>
    decreases s.len(),
{
    if s.len() > 0 && s.last() == c {
        stripped_end(s.drop_last(), c)
    } else {
        s
    }
}

/// Without the `c`s at either end.
pub open spec fn stripped(s: Seq<char>, c: char) -> Seq<char> {
    stripped_end(stripped_start(s, c), c)
}

/// The characters without the `c`s at the end.
pub fn strip_end(chars: &[char], c: char) -> (result: &[char])
    ensures
        result@ == stripped_end(chars@, c),
{
    let mut end: usize = chars.len();
    assert(chars@.take(end as int) =~= chars@);
    while end > 0 && chars[end - 1] == c
        invariant
            end <= chars@.len(),
            stripped_end(chars@, c) == stripped_end(chars@.take(end as int), c),
        decreases end,
    {
        assert(chars@.take(end as int).drop_last() =~= chars@.take(end - 1));
        end -= 1;
    }
    assert(chars@.subrange(0, end as int) =~= chars@.take(end as int));
    slice_subrange(chars, 0, end)
}

/// The characters without the `c`s at either end.
pub fn strip(chars: &[char], c: char) -> (result: &[char])
    ensures
        result@ == stripped(chars@, c),
{
    let mut begin: usize = 0;
    assert(chars@.skip(0) =~= chars@);
    while begin < chars.len() && chars[begin] == c
        invariant
            begin <= chars@.len(),
            stripped_start(chars@, c) == stripped_start(chars@.skip(begin as int), c),
        decreases chars@.len() - begin,
    {
        assert(chars@.skip(begin as int).skip(1) =~= chars@.skip(begin + 1));
        begin += 1;
    }
    assert(chars@.subrange(begin as int, chars@.len() as int) =~= chars@.skip(begin as int));
    strip_end(slice_subrange(chars, begin, chars.len()), c)
}

/// Stripping keeps nothing but what was there.
pub proof fn stripping_keeps_characters(s: Seq<char>, c: char)
    ensures
        stripped(s, c).len() <= s.len(),
        forall|i: int| 0 <= i < stripped(s, c).len() ==> s.contains(#[trigger] stripped(s, c)[i]),
{
    lemma_stripped_start(s, c);
    lemma_stripped_end(stripped_start(s, c), c);
    let start = stripped_start(s, c);
    assert forall|i: int| 0 <= i < stripped(s, c).len() implies s.contains(
        #[trigger] stripped(s, c)[i],
    ) by {
        assert(start.contains(stripped_end(start, c)[i]));
        let j = start.index_of(stripped(s, c)[i]);
        assert(s.contains(start[j]));
    }
}

proof fn lemma_stripped_start(s: Seq<char>, c: char)
    ensures
        stripped_start(s, c).len() <= s.len(),
        forall|i: int|
            0 <= i < stripped_start(s, c).len() ==> s.contains(#[trigger] stripped_start(s, c)[i]),
    decreases s.len(),
{
    if s.len() > 0 && s[0] == c {
        let rest = s.skip(1);
        lemma_stripped_start(rest, c);
        assert forall|i: int| 0 <= i < stripped_start(s, c).len() implies s.contains(
            #[trigger] stripped_start(s, c)[i],
        ) by {
            assert(rest.contains(stripped_start(rest, c)[i]));
            assert(s[rest.index_of(stripped_start(rest, c)[i]) + 1] == stripped_start(s, c)[i]);
        }
    }
}

proof fn lemma_stripped_end(s: Seq<char>, c: char)
    ensures
        stripped_end(s, c).len() <= s.len(),
        forall|i: int|
            0 <= i < stripped_end(s, c).len() ==> s.contains(#[trigger] stripped_end(s, c)[i]),
    decreases s.len(),
{
    if s.len() > 0 && s.last() == c {
        let rest = s.drop_last();
        lemma_stripped_end(rest, c);
        assert forall|i: int| 0 <= i < stripped_end(s, c).len() implies s.contains(
            #[trigger] stripped_end(s, c)[i],
        ) by {
            assert(rest.contains(stripped_end(rest, c)[i]));
            assert(s[rest.index_of(stripped_end(rest, c)[i])] == stripped_end(s, c)[i]);
        }
    }
}

/// Stripping takes nothing but `c`s off the ends: what is left is a stretch of
/// the text with only `c`s before and behind it, and has none at its ends.
pub proof fn stripping_takes_only_that_character(s: Seq<char>, c: char)
    ensures
        exists|from: int, to: int|
            0 <= from <= to <= s.len() && stripped(s, c) == #[trigger] s.subrange(from, to) && (
            forall|i: int| 0 <= i < from || to <= i < s.len() ==> #[trigger] s[i] == c),
        stripped(s, c).len() > 0 ==> stripped(s, c)[0] != c && stripped(s, c).last() != c,
{
    let from = lemma_stripped_start_at(s, c);
    let rest = s.skip(from);
    let kept = lemma_stripped_end_at(rest, c);
    let to = from + kept;
    assert(rest.take(kept) =~= s.subrange(from, to));
    assert forall|i: int| 0 <= i < from || to <= i < s.len() implies #[trigger] s[i] == c by {
        if to <= i {
            assert(rest[i - from] == s[i]);
        }
    }
    assert(stripped(s, c) == s.subrange(from, to));
}

proof fn lemma_stripped_start_at(s: Seq<char>, c: char) -> (from: int)
    ensures
        0 <= from <= s.len(),
        stripped_start(s, c) == s.skip(from),
        forall|i: int| 0 <= i < from ==> #[trigger] s[i] == c,
        from < s.len() ==> s[from] != c,
    decreases s.len(),
{
    if s.len() > 0 && s[0] == c {
        let rest = s.skip(1);
        let inner = lemma_stripped_start_at(rest, c);
        assert(rest.skip(inner) =~= s.skip(inner + 1));
        assert forall|i: int| 0 <= i < inner + 1 implies #[trigger] s[i] == c by {
            if i > 0 {
                assert(rest[i - 1] == s[i]);
            }
        }
        inner + 1
    } else {
        assert(s.skip(0) =~= s);
        0
    }
}

proof fn lemma_stripped_end_at(s: Seq<char>, c: char) -> (to: int)
    ensures
        0 <= to <= s.len(),
        stripped_end(s, c) == s.take(to),
        forall|i: int| to <= i < s.len() ==> #[trigger] s[i] == c,
        to > 0 ==> s[to - 1] != c,
    decreases s.len(),
{
    if s.len() > 0 && s.last() == c {
        let rest = s.drop_last();
        let to = lemma_stripped_end_at(rest, c);
        assert(rest.take(to) =~= s.take(to));
        assert forall|i: int| to <= i < s.len() implies #[trigger] s[i] == c by {
            if i < rest.len() {
                assert(rest[i] == s[i]);
            }
        }
        to
    } else {
        assert(s.take(s.len() as int) =~= s);
        s.len() as int
    }
}

} // verus!
