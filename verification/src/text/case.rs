//! Letters in upper and lower case, as far as ASCII goes.

use vstd::prelude::*;

use crate::text::chars::white;
use crate::text::words::{flushed, joined, words, words_from};

verus! {

/// Nothing beyond ASCII.
pub open spec fn ascii(s: Seq<char>) -> bool {
    forall|i: int| 0 <= i < s.len() ==> #[trigger] s[i] <= '\u{7f}'
}

/// Texts without anything beyond ASCII.
pub open spec fn all_ascii(texts: Seq<Seq<char>>) -> bool {
    forall|i: int| 0 <= i < texts.len() ==> ascii(#[trigger] texts[i])
}

/// A letter in lower case, where it is an ASCII one.
pub open spec fn ascii_lower(c: char) -> char {
    if 'A' <= c <= 'Z' {
        (c as int + 32) as char
    } else {
        c
    }
}

/// A text with its ASCII letters in lower case.
pub open spec fn ascii_lowered(s: Seq<char>) -> Seq<char> {
    s.map_values(|c: char| ascii_lower(c))
}

/// Some texts with their ASCII letters in lower case.
pub open spec fn all_lowered(texts: Seq<Seq<char>>) -> Seq<Seq<char>> {
    texts.map_values(|text: Seq<char>| ascii_lowered(text))
}

/// A letter in lower case, where it is an ASCII one.
pub fn to_ascii_lower(c: char) -> (lower: char)
    ensures
        lower == ascii_lower(c),
{
    if 'A' <= c && c <= 'Z' {
        (c as u8 + 32) as char
    } else {
        c
    }
}

/// Lowering twice is lowering once, and an ASCII text stays one.
pub proof fn lowering_is_idempotent(s: Seq<char>)
    ensures
        ascii_lowered(ascii_lowered(s)) == ascii_lowered(s),
        ascii(s) ==> ascii(ascii_lowered(s)),
{
    assert(ascii_lowered(ascii_lowered(s)) =~= ascii_lowered(s));
}

/// Lowering moves no whitespace: the words of a lowered text are the lowered
/// words.
pub proof fn lowering_keeps_the_words(s: Seq<char>)
    ensures
        words(ascii_lowered(s)) == all_lowered(words(s)),
{
    lemma_lowered_words(Seq::empty(), s);
    assert(ascii_lowered(Seq::empty()) =~= Seq::empty());
}

proof fn lemma_lowered_words(run: Seq<char>, s: Seq<char>)
    ensures
        words_from(ascii_lowered(run), ascii_lowered(s)) == all_lowered(words_from(run, s)),
    decreases s.len(),
{
    assert(ascii_lowered(run).len() == run.len());
    assert(flushed(ascii_lowered(run)) =~= all_lowered(flushed(run)));
    if s.len() > 0 {
        let low = ascii_lowered(s);
        assert(low[0] == ascii_lower(s[0]));
        assert(white(low[0]) == white(s[0]));
        assert(low.skip(1) =~= ascii_lowered(s.skip(1)));
        if white(s[0]) {
            lemma_lowered_words(Seq::empty(), s.skip(1));
            assert(ascii_lowered(Seq::empty()) =~= Seq::empty());
            assert(all_lowered(flushed(run) + words_from(Seq::empty(), s.skip(1))) =~= all_lowered(
                flushed(run),
            ) + all_lowered(words_from(Seq::empty(), s.skip(1))));
        } else {
            lemma_lowered_words(run.push(s[0]), s.skip(1));
            assert(ascii_lowered(run.push(s[0])) =~= ascii_lowered(run).push(low[0]));
        }
    }
}

/// Lowering some texts and joining them is joining and lowering them, where
/// the separator has no letter to lower.
pub proof fn lemma_lowered_joined(texts: Seq<Seq<char>>, separator: Seq<char>)
    requires
        ascii_lowered(separator) == separator,
    ensures
        joined(all_lowered(texts), separator) == ascii_lowered(joined(texts, separator)),
    decreases texts.len(),
{
    if texts.len() == 0 {
        assert(ascii_lowered(Seq::empty()) =~= Seq::empty());
    } else if texts.len() > 1 {
        assert(all_lowered(texts).skip(1) =~= all_lowered(texts.skip(1)));
        lemma_lowered_joined(texts.skip(1), separator);
        let rest = joined(texts.skip(1), separator);
        assert(ascii_lowered(texts[0] + separator + rest) =~= ascii_lowered(texts[0])
            + ascii_lowered(separator) + ascii_lowered(rest));
    }
}

/// Joined ASCII words are ASCII.
pub proof fn lemma_ascii_joined(texts: Seq<Seq<char>>, separator: Seq<char>)
    requires
        all_ascii(texts),
        ascii(separator),
    ensures
        ascii(joined(texts, separator)),
    decreases texts.len(),
{
    if texts.len() > 1 {
        assert forall|i: int| 0 <= i < texts.skip(1).len() implies ascii(
            #[trigger] texts.skip(1)[i],
        ) by {
            assert(ascii(texts[i + 1]));
        }
        lemma_ascii_joined(texts.skip(1), separator);
        assert(ascii(texts[0]));
    } else if texts.len() == 1 {
        assert(ascii(texts[0]));
    }
}

/// The words of an ASCII text are ASCII.
pub proof fn lemma_ascii_words(run: Seq<char>, s: Seq<char>)
    requires
        ascii(run),
        ascii(s),
    ensures
        all_ascii(words_from(run, s)),
    decreases s.len(),
{
    if s.len() == 0 {
        assert(words_from(run, s) =~= flushed(run));
    } else {
        assert(ascii(s.skip(1)));
        if white(s[0]) {
            lemma_ascii_words(Seq::empty(), s.skip(1));
            let rest = words_from(Seq::empty(), s.skip(1));
            let all = flushed(run) + rest;
            assert forall|i: int| 0 <= i < all.len() implies ascii(#[trigger] all[i]) by {
                if i >= flushed(run).len() {
                    assert(all[i] == rest[i - flushed(run).len()]);
                }
            }
            assert(words_from(run, s) == all);
        } else {
            lemma_ascii_words(run.push(s[0]), s.skip(1));
            assert(words_from(run, s) == words_from(run.push(s[0]), s.skip(1)));
        }
    }
}

/// Lowering turns each capital into its small letter, 32 places on, and leaves
/// every other character alone, in its place.
pub proof fn only_capitals_are_lowered(s: Seq<char>, i: int)
    requires
        0 <= i < s.len(),
    ensures
        ascii_lowered(s).len() == s.len(),
        'A' <= s[i] <= 'Z' ==> ascii_lowered(s)[i] as int == s[i] as int + 32,
        !('A' <= s[i] <= 'Z') ==> ascii_lowered(s)[i] == s[i],
{
    lemma_lower(s[i]);
}

proof fn lemma_lower(c: char)
    ensures
        'A' <= c <= 'Z' ==> ascii_lower(c) as int == c as int + 32,
        !('A' <= c <= 'Z') ==> ascii_lower(c) == c,
{
}

} // verus!
