//! Words, the maximal runs of non-whitespace, and trimming.

use vstd::prelude::*;
use vstd::slice::slice_subrange;

use crate::text::chars::{blank, is_white, push_range, solid, str_texts, texts, views, white};
use crate::text::search::{
    a_part_of_a_part_occurs, a_stretch_occurs, occurs, what_is_put_between_occurs,
};

verus! {

/// What a finished run adds to the words: itself, unless it is empty.
pub open spec fn flushed(run: Seq<char>) -> Seq<Seq<char>> {
    if run.len() == 0 {
        Seq::empty()
    } else {
        seq![run]
    }
}

/// The words of `run + s`, where `run` holds no whitespace.
pub open spec fn words_from(run: Seq<char>, s: Seq<char>) -> Seq<Seq<char>>
    decreases s.len(),
{
    if s.len() == 0 {
        flushed(run)
    } else if white(s[0]) {
        flushed(run) + words_from(Seq::empty(), s.skip(1))
    } else {
        words_from(run.push(s[0]), s.skip(1))
    }
}

/// The words of a text, in order.
pub open spec fn words(s: Seq<char>) -> Seq<Seq<char>> {
    words_from(Seq::empty(), s)
}

/// The words of several texts, one text after the other.
pub open spec fn all_words(texts: Seq<Seq<char>>) -> Seq<Seq<char>>
    decreases texts.len(),
{
    if texts.len() == 0 {
        Seq::empty()
    } else {
        words(texts[0]) + all_words(texts.skip(1))
    }
}

/// The texts with one `separator` between neighbours.
pub open spec fn joined(texts: Seq<Seq<char>>, separator: Seq<char>) -> Seq<char>
    decreases texts.len(),
{
    if texts.len() == 0 {
        Seq::empty()
    } else if texts.len() == 1 {
        texts[0]
    } else {
        texts[0] + separator + joined(texts.skip(1), separator)
    }
}

/// Without its leading whitespace.
pub open spec fn trimmed_start(s: Seq<char>) -> Seq<char>
    decreases s.len(),
{
    if s.len() > 0 && white(s[0]) {
        trimmed_start(s.skip(1))
    } else {
        s
    }
}

/// Without its trailing whitespace.
pub open spec fn trimmed_end(s: Seq<char>) -> Seq<char>
    decreases s.len(),
{
    if s.len() > 0 && white(s.last()) {
        trimmed_end(s.drop_last())
    } else {
        s
    }
}

/// Without leading or trailing whitespace.
pub open spec fn trimmed(s: Seq<char>) -> Seq<char> {
    trimmed_end(trimmed_start(s))
}

/// The characters without leading or trailing whitespace.
pub fn trim(chars: &[char]) -> (result: &[char])
    ensures
        result@ == trimmed(chars@),
{
    let to: usize = chars.len();
    let mut begin: usize = 0;
    assert(chars@.skip(0) == chars@);
    while begin < to && is_white(chars[begin])
        invariant
            begin <= to == chars@.len(),
            trimmed_start(chars@.skip(begin as int)) == trimmed_start(chars@),
        decreases to - begin,
    {
        assert(chars@.skip(begin as int).skip(1) == chars@.skip(begin + 1));
        begin += 1;
    }
    let ghost start = chars@.skip(begin as int);
    assert(trimmed_start(start) == start);
    assert(chars@.subrange(begin as int, to as int) == start);
    let mut end: usize = to;
    while end > begin && is_white(chars[end - 1])
        invariant
            begin <= end <= to == chars@.len(),
            trimmed_end(chars@.subrange(begin as int, end as int)) == trimmed_end(start),
        decreases end,
    {
        assert(chars@.subrange(begin as int, end as int).drop_last() == chars@.subrange(
            begin as int,
            end - 1,
        ));
        end -= 1;
    }
    slice_subrange(chars, begin, end)
}

/// The words of the characters, in order.
pub fn split_words(chars: &[char]) -> (result: Vec<&[char]>)
    ensures
        views(result@) == words(chars@),
{
    let mut found: Vec<&[char]> = Vec::new();
    let mut from: usize = 0;
    let mut at: usize = 0;
    assert(chars@.subrange(0, 0) =~= Seq::empty());
    assert(chars@.skip(0) =~= chars@);
    while at < chars.len()
        invariant
            from <= at <= chars@.len(),
            views(found@) + words_from(chars@.subrange(from as int, at as int), chars@.skip(at as int))
                == words(chars@),
        decreases chars@.len() - at,
    {
        let ghost before = views(found@);
        let ghost run = chars@.subrange(from as int, at as int);
        assert(chars@.skip(at as int).skip(1) =~= chars@.skip(at + 1));
        if is_white(chars[at]) {
            if from < at {
                found.push(slice_subrange(chars, from, at));
            }
            assert(views(found@) =~= before + flushed(run));
            from = at + 1;
            assert(chars@.subrange(from as int, at + 1) =~= Seq::empty());
        } else {
            assert(run.push(chars@[at as int]) =~= chars@.subrange(from as int, at + 1));
        }
        at += 1;
    }
    let ghost before = views(found@);
    if from < at {
        found.push(slice_subrange(chars, from, at));
    }
    assert(views(found@) =~= before + flushed(chars@.subrange(from as int, at as int)));
    found
}

/// One text more, at the end.
pub proof fn lemma_joined_push(texts: Seq<Seq<char>>, text: Seq<char>, separator: Seq<char>)
    ensures
        joined(texts.push(text), separator) == if texts.len() == 0 {
            text
        } else {
            joined(texts, separator) + separator + text
        },
    decreases texts.len(),
{
    if texts.len() > 0 {
        let all = texts.push(text);
        assert(all.skip(1) =~= texts.skip(1).push(text));
        lemma_joined_push(texts.skip(1), text, separator);
        if texts.len() > 1 {
            assert(texts[0] + separator + (joined(texts.skip(1), separator) + separator + text)
                =~= texts[0] + separator + joined(texts.skip(1), separator) + separator + text);
        }
    }
}

/// Some runs of characters with `separator` between neighbours.
pub fn join_slices(slices: &[&[char]], separator: &str) -> (text: String)
    ensures
        text@ == joined(views(slices@), separator@),
{
    let mut text = String::new();
    let mut i: usize = 0;
    let ghost all = views(slices@);
    while i < slices.len()
        invariant
            i <= slices@.len(),
            all == views(slices@),
            text@ == joined(all.take(i as int), separator@),
        decreases slices@.len() - i,
    {
        proof {
            lemma_joined_push(all.take(i as int), all[i as int], separator@);
            assert(all.take(i as int).push(all[i as int]) =~= all.take(i + 1));
        }
        if i > 0 {
            text.append(separator);
        }
        push_range(&mut text, slices[i], 0, slices[i].len());
        i += 1;
    }
    assert(all.take(i as int) =~= all);
    text
}

/// Some texts with `separator` between neighbours.
pub fn join_texts(parts: &[String], separator: &str) -> (text: String)
    ensures
        text@ == joined(texts(parts@), separator@),
{
    let mut text = String::new();
    let mut i: usize = 0;
    let ghost all = texts(parts@);
    while i < parts.len()
        invariant
            i <= parts@.len(),
            all == texts(parts@),
            text@ == joined(all.take(i as int), separator@),
        decreases parts@.len() - i,
    {
        proof {
            lemma_joined_push(all.take(i as int), all[i as int], separator@);
            assert(all.take(i as int).push(all[i as int]) =~= all.take(i + 1));
        }
        if i > 0 {
            text.append(separator);
        }
        text.append(parts[i].as_str());
        i += 1;
    }
    assert(all.take(i as int) =~= all);
    text
}

/// Some string slices with `separator` between neighbours.
pub fn join_strs(parts: &[&str], separator: &str) -> (text: String)
    ensures
        text@ == joined(str_texts(parts@), separator@),
{
    let mut text = String::new();
    let mut i: usize = 0;
    let ghost all = str_texts(parts@);
    while i < parts.len()
        invariant
            i <= parts@.len(),
            all == str_texts(parts@),
            text@ == joined(all.take(i as int), separator@),
        decreases parts@.len() - i,
    {
        proof {
            lemma_joined_push(all.take(i as int), all[i as int], separator@);
            assert(all.take(i as int).push(all[i as int]) =~= all.take(i + 1));
        }
        if i > 0 {
            text.append(separator);
        }
        text.append(parts[i]);
        i += 1;
    }
    assert(all.take(i as int) =~= all);
    text
}

/// A whitespace character ends the word before it and starts none.
pub proof fn lemma_words_split(run: Seq<char>, a: Seq<char>, b: Seq<char>)
    requires
        b.len() == 0 || white(b[0]),
    ensures
        words_from(run, a + b) == words_from(run, a) + words(b),
    decreases a.len(),
{
    if a.len() == 0 {
        assert(a + b == b);
        if b.len() > 0 {
            assert(flushed(Seq::empty()) + words_from(Seq::empty(), b.skip(1)) == words_from(
                Seq::empty(),
                b.skip(1),
            ));
        }
    } else {
        assert((a + b).skip(1) == a.skip(1) + b);
        if white(a[0]) {
            lemma_words_split(Seq::empty(), a.skip(1), b);
        } else {
            lemma_words_split(run.push(a[0]), a.skip(1), b);
        }
    }
}

/// After a whitespace character the words start afresh.
pub proof fn lemma_words_split_after(run: Seq<char>, a: Seq<char>, b: Seq<char>)
    requires
        a.len() > 0,
        white(a.last()),
    ensures
        words_from(run, a + b) == words_from(run, a) + words(b),
    decreases a.len(),
{
    assert((a + b).skip(1) == a.skip(1) + b);
    if a.len() == 1 {
        assert(a.skip(1) + b == b);
        assert(words_from(Seq::empty(), a.skip(1)) == Seq::<Seq<char>>::empty());
    } else {
        assert(a.skip(1).last() == a.last());
        if white(a[0]) {
            lemma_words_split_after(Seq::empty(), a.skip(1), b);
        } else {
            lemma_words_split_after(run.push(a[0]), a.skip(1), b);
        }
    }
}

/// Whitespace holds no words.
pub proof fn lemma_words_of_blank(s: Seq<char>)
    requires
        blank(s),
    ensures
        words(s) == Seq::<Seq<char>>::empty(),
    decreases s.len(),
{
    if s.len() > 0 {
        assert(blank(s.skip(1))) by {
            assert forall|i: int| 0 <= i < s.skip(1).len() implies white(#[trigger] s.skip(1)[i]) by {
                assert(white(s[i + 1]));
            }
        }
        lemma_words_of_blank(s.skip(1));
    }
}

/// A text without words is whitespace only.
pub proof fn lemma_blank_of_no_words(run: Seq<char>, s: Seq<char>)
    requires
        words_from(run, s).len() == 0,
    ensures
        run.len() == 0,
        blank(s),
    decreases s.len(),
{
    if s.len() > 0 {
        if white(s[0]) {
            lemma_blank_of_no_words(Seq::empty(), s.skip(1));
        } else {
            lemma_blank_of_no_words(run.push(s[0]), s.skip(1));
        }
        assert forall|i: int| 0 <= i < s.len() implies white(#[trigger] s[i]) by {
            if i > 0 {
                assert(white(s.skip(1)[i - 1]));
            }
        }
    }
}

/// A run without whitespace is one word.
pub proof fn lemma_words_of_solid(run: Seq<char>, s: Seq<char>)
    requires
        solid(s),
    ensures
        words_from(run, s) == flushed(run + s),
    decreases s.len(),
{
    if s.len() == 0 {
        assert(run + s == run);
    } else {
        assert(run.push(s[0]) + s.skip(1) == run + s);
        assert forall|i: int| 0 <= i < s.skip(1).len() implies !white(#[trigger] s.skip(1)[i]) by {
            assert(!white(s[i + 1]));
        }
        lemma_words_of_solid(run.push(s[0]), s.skip(1));
    }
}

/// Trimming keeps the words.
pub proof fn lemma_words_of_trimmed_start(s: Seq<char>)
    ensures
        words(trimmed_start(s)) == words(s),
    decreases s.len(),
{
    if s.len() > 0 && white(s[0]) {
        lemma_words_of_trimmed_start(s.skip(1));
    }
}

/// Trimming keeps the words.
pub proof fn lemma_words_of_trimmed_end(s: Seq<char>)
    ensures
        words(trimmed_end(s)) == words(s),
    decreases s.len(),
{
    if s.len() > 0 && white(s.last()) {
        let rest = seq![s.last()];
        lemma_words_of_trimmed_end(s.drop_last());
        lemma_words_split(Seq::empty(), s.drop_last(), rest);
        lemma_words_of_blank(rest);
        assert(s.drop_last() + rest == s);
        assert(words(s.drop_last()) + words(rest) == words(s.drop_last()));
    }
}

/// Trimming keeps the words.
pub proof fn lemma_words_of_trimmed(s: Seq<char>)
    ensures
        words(trimmed(s)) == words(s),
{
    lemma_words_of_trimmed_start(s);
    lemma_words_of_trimmed_end(trimmed_start(s));
}

/// Trimming whitespace leaves nothing, and trimming anything else leaves something.
pub proof fn lemma_trimmed_empty(s: Seq<char>)
    ensures
        trimmed(s).len() == 0 <==> blank(s),
{
    lemma_words_of_trimmed(s);
    if trimmed(s).len() == 0 {
        lemma_words_of_blank(trimmed(s));
        lemma_blank_of_no_words(Seq::empty(), s);
    }
    if blank(s) {
        lemma_words_of_blank(s);
        lemma_blank_of_no_words(Seq::empty(), trimmed(s));
        lemma_trimmed_ends(s);
        if trimmed(s).len() > 0 {
            assert(white(trimmed(s)[0]));
        }
    }
}

/// A trimmed text neither starts nor ends with whitespace.
pub proof fn lemma_trimmed_ends(s: Seq<char>)
    ensures
        trimmed(s).len() > 0 ==> !white(trimmed(s)[0]) && !white(trimmed(s).last()),
{
    lemma_trimmed_start_first(s);
    lemma_trimmed_end_last(trimmed_start(s));
}

proof fn lemma_trimmed_start_first(s: Seq<char>)
    ensures
        trimmed_start(s).len() > 0 ==> !white(trimmed_start(s)[0]),
    decreases s.len(),
{
    if s.len() > 0 && white(s[0]) {
        lemma_trimmed_start_first(s.skip(1));
    }
}

proof fn lemma_trimmed_end_last(s: Seq<char>)
    ensures
        trimmed_end(s).len() > 0 ==> !white(trimmed_end(s).last()) && trimmed_end(s)[0] == s[0],
        trimmed_end(s).len() <= s.len(),
    decreases s.len(),
{
    if s.len() > 0 && white(s.last()) {
        lemma_trimmed_end_last(s.drop_last());
    }
}

/// Words of texts put end to end, a list at a time.
pub proof fn lemma_all_words_add(a: Seq<Seq<char>>, b: Seq<Seq<char>>)
    ensures
        all_words(a + b) == all_words(a) + all_words(b),
    decreases a.len(),
{
    if a.len() == 0 {
        assert(a + b == b);
        assert(all_words(a) + all_words(b) == all_words(b));
    } else {
        assert((a + b).skip(1) == a.skip(1) + b);
        lemma_all_words_add(a.skip(1), b);
        assert(words(a[0]) + (all_words(a.skip(1)) + all_words(b)) == (words(a[0]) + all_words(
            a.skip(1),
        )) + all_words(b));
    }
}

/// The words of a list of one.
pub proof fn lemma_all_words_one(text: Seq<char>)
    ensures
        all_words(seq![text]) == words(text),
{
    assert(seq![text].skip(1) == Seq::<Seq<char>>::empty());
    assert(all_words(seq![text].skip(1)) == Seq::<Seq<char>>::empty());
    assert(words(text) + Seq::<Seq<char>>::empty() == words(text));
}

/// Joining texts with whitespace keeps their words apart.
pub proof fn lemma_words_of_joined(texts: Seq<Seq<char>>, separator: Seq<char>)
    requires
        separator.len() > 0,
        blank(separator),
    ensures
        words(joined(texts, separator)) == all_words(texts),
    decreases texts.len(),
{
    if texts.len() == 1 {
        assert(texts == seq![texts[0]]);
        lemma_all_words_one(texts[0]);
    } else if texts.len() > 1 {
        let rest = joined(texts.skip(1), separator);
        lemma_words_of_joined(texts.skip(1), separator);
        assert(white(separator.last()));
        assert(white(separator[0]));
        lemma_words_split_after(Seq::empty(), texts[0] + separator, rest);
        lemma_words_split(Seq::empty(), texts[0], separator);
        lemma_words_of_blank(separator);
        assert(words(texts[0]) + Seq::<Seq<char>>::empty() == words(texts[0]));
    }
}

/// Trimming takes whitespace off the ends and nothing else: what is left is a
/// stretch of the text, with whitespace before and behind it, that neither
/// starts nor ends with whitespace.
pub proof fn trimming_takes_only_whitespace(s: Seq<char>)
    ensures
        exists|from: int, to: int|
            0 <= from <= to <= s.len() && trimmed(s) == #[trigger] s.subrange(from, to) && blank(
                s.take(from),
            ) && blank(s.skip(to)),
        trimmed(s).len() > 0 ==> !white(trimmed(s)[0]) && !white(trimmed(s).last()),
        occurs(s, trimmed(s)),
{
    lemma_trimmed_ends(s);
    let from = lemma_trimmed_start_at(s);
    let rest = s.skip(from);
    let to = from + lemma_trimmed_end_at(rest);
    assert(rest.take(to - from) =~= s.subrange(from, to));
    assert(rest.skip(to - from) =~= s.skip(to));
    a_stretch_occurs(s, from, to);
}

proof fn lemma_trimmed_start_at(s: Seq<char>) -> (from: int)
    ensures
        0 <= from <= s.len(),
        trimmed_start(s) == s.skip(from),
        blank(s.take(from)),
    decreases s.len(),
{
    if s.len() > 0 && white(s[0]) {
        let inner = lemma_trimmed_start_at(s.skip(1));
        let from = inner + 1;
        assert(s.skip(1).skip(inner) =~= s.skip(from));
        assert forall|i: int| 0 <= i < s.take(from).len() implies white(#[trigger] s.take(from)[i]) by {
            if i > 0 {
                assert(s.skip(1).take(inner)[i - 1] == s[i]);
            }
        }
        from
    } else {
        assert(s.skip(0) =~= s);
        0
    }
}

proof fn lemma_trimmed_end_at(s: Seq<char>) -> (to: int)
    ensures
        0 <= to <= s.len(),
        trimmed_end(s) == s.take(to),
        blank(s.skip(to)),
    decreases s.len(),
{
    if s.len() > 0 && white(s.last()) {
        let rest = s.drop_last();
        let to = lemma_trimmed_end_at(rest);
        assert(rest.take(to) =~= s.take(to));
        assert forall|i: int| 0 <= i < s.skip(to).len() implies white(#[trigger] s.skip(to)[i]) by {
            if i < rest.skip(to).len() {
                assert(rest.skip(to)[i] == s[to + i]);
            }
        }
        to
    } else {
        assert(s.take(s.len() as int) =~= s);
        s.len() as int
    }
}

/// A text without whitespace at its ends is left as it is.
pub proof fn trimming_keeps_a_trimmed_text(s: Seq<char>)
    requires
        s.len() == 0 || (!white(s[0]) && !white(s.last())),
    ensures
        trimmed(s) == s,
{
}

/// A word with whitespace, or nothing, on either side is one of the words, and
/// the words before and behind it are those of the texts around it.
pub proof fn a_word_between_blanks_is_a_word(before: Seq<char>, word: Seq<char>, after: Seq<char>)
    requires
        word.len() > 0,
        solid(word),
        before.len() == 0 || white(before.last()),
        after.len() == 0 || white(after[0]),
    ensures
        words(before + word + after) == words(before) + seq![word] + words(after),
{
    lemma_words_split(Seq::empty(), before + word, after);
    lemma_words_of_solid(Seq::empty(), word);
    assert(Seq::<char>::empty() + word =~= word);
    if before.len() > 0 {
        lemma_words_split_after(Seq::empty(), before, word);
    } else {
        assert(before + word =~= word);
        assert(words(before) + seq![word] =~= seq![word]);
    }
}

/// Every joined text stands in what it is joined into.
pub proof fn every_joined_text_occurs(texts: Seq<Seq<char>>, separator: Seq<char>, i: int)
    requires
        0 <= i < texts.len(),
    ensures
        occurs(joined(texts, separator), texts[i]),
    decreases texts.len(),
{
    let whole = joined(texts, separator);
    let none = Seq::<char>::empty();
    if texts.len() == 1 {
        assert(whole =~= none + texts[0] + none);
        what_is_put_between_occurs(none, texts[0], none);
    } else {
        let rest = joined(texts.skip(1), separator);
        if i == 0 {
            assert(whole =~= none + texts[0] + (separator + rest));
            what_is_put_between_occurs(none, texts[0], separator + rest);
        } else {
            every_joined_text_occurs(texts.skip(1), separator, i - 1);
            assert(texts.skip(1)[i - 1] == texts[i]);
            assert(whole =~= (texts[0] + separator) + rest + none);
            what_is_put_between_occurs(texts[0] + separator, rest, none);
            a_part_of_a_part_occurs(whole, rest, texts[i]);
        }
    }
}

/// Joining adds one separator between neighbours: two lists joined one after
/// the other are their join.
pub proof fn joining_adds_one_separator(
    a: Seq<Seq<char>>,
    b: Seq<Seq<char>>,
    separator: Seq<char>,
)
    requires
        a.len() > 0,
        b.len() > 0,
    ensures
        joined(a + b, separator) == joined(a, separator) + separator + joined(b, separator),
        joined(seq![a[0]], separator) == a[0],
    decreases a.len(),
{
    let all = a + b;
    if a.len() == 1 {
        assert(all.skip(1) =~= b);
    } else {
        assert(all.skip(1) =~= a.skip(1) + b);
        joining_adds_one_separator(a.skip(1), b, separator);
        assert(joined(all, separator) =~= joined(a, separator) + separator + joined(b, separator));
    }
}

} // verus!
