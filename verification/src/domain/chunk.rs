//! Episode chunking: turning verbatim text into retrieval-sized pieces.
//!
//! Chunks are what search actually matches, so they are cut at boundaries a
//! reader would recognise: paragraph first, sentence if a paragraph is too
//! long, and only then at a word. Nothing is dropped: rejoining the chunks
//! reproduces the input up to whitespace, which is what makes the episode row
//! and its chunks two views of the same text rather than two texts.

use vstd::prelude::*;
use vstd::slice::slice_subrange;

use crate::text::chars::{all_white, blank, is_white, push_range, solid, texts, to_chars, views, white};
use crate::text::search::{
    a_part_of_a_part_occurs, a_stretch_occurs, occurs, starts_with, what_is_put_between_occurs,
};
use crate::text::words::{
    all_words, joined, lemma_all_words_add, lemma_all_words_one, lemma_blank_of_no_words,
    lemma_trimmed_empty, lemma_trimmed_ends, lemma_words_of_blank, lemma_words_of_joined,
    lemma_words_of_trimmed, lemma_words_split, lemma_words_split_after, trim, trimmed,
    trimming_takes_only_whitespace, words,
};

verus! {

/// Chunk size to aim for, in characters.
///
/// Around 1500 characters is a few hundred tokens: long enough for a claim to
/// keep its context, short enough that an embedding still points somewhere.
pub const TARGET_CHARS: usize = 1500;

/// Where the line that starts at `i` ends: behind its line feed, or at the end
/// of the text.
pub open spec fn line_end(t: Seq<char>, i: int) -> int
    decreases t.len() - i,
{
    if i >= t.len() {
        t.len() as int
    } else if t[i] == '\n' {
        i + 1
    } else {
        line_end(t, i + 1)
    }
}

pub proof fn lemma_line_end(t: Seq<char>, i: int)
    requires
        i < t.len(),
    ensures
        i < line_end(t, i) <= t.len(),
        line_end(t, i) < t.len() ==> t[line_end(t, i) - 1] == '\n',
    decreases t.len() - i,
{
    if i + 1 < t.len() {
        lemma_line_end(t, i + 1);
    } else {
        assert(line_end(t, i + 1) == t.len());
    }
}

/// The trimmed run, unless it holds nothing but whitespace.
pub open spec fn kept(run: Seq<char>) -> Seq<Seq<char>> {
    if blank(run) {
        Seq::empty()
    } else {
        seq![trimmed(run)]
    }
}

/// The paragraphs of the lines from `at` on, where `from..at` holds the
/// non-blank lines directly before.
pub open spec fn paragraphs_from(t: Seq<char>, from: int, at: int) -> Seq<Seq<char>>
    decreases t.len() - at,
{
    if at >= t.len() {
        kept(t.subrange(from, t.len() as int))
    } else {
        let next = line_end(t, at);
        proof {
            lemma_line_end(t, at);
        }
        if blank(t.subrange(at, next)) {
            kept(t.subrange(from, at)) + paragraphs_from(t, next, next)
        } else {
            paragraphs_from(t, from, next)
        }
    }
}

/// Runs of consecutive non-blank lines, trimmed.
pub open spec fn paragraphs_of(t: Seq<char>) -> Seq<Seq<char>> {
    paragraphs_from(t, 0, 0)
}

/// A character that ends a sentence.
pub open spec fn full_stop(c: char) -> bool {
    c == '.' || c == '!' || c == '?'
}

/// The sentences of `p` from `from` on, none of which ends before `at`.
pub open spec fn sentences_from(p: Seq<char>, from: int, at: int) -> Seq<Seq<char>>
    decreases p.len() - at,
{
    if at + 1 >= p.len() {
        kept(p.subrange(from, p.len() as int))
    } else if full_stop(p[at]) && white(p[at + 1]) {
        kept(p.subrange(from, at + 1)) + sentences_from(p, at + 1, at + 1)
    } else {
        sentences_from(p, from, at + 1)
    }
}

/// A paragraph cut behind `.`, `!` or `?` where whitespace follows.
pub open spec fn sentences_of(p: Seq<char>) -> Seq<Seq<char>> {
    sentences_from(p, 0, 0)
}

/// Where the word that starts at `i` ends.
pub open spec fn word_end(t: Seq<char>, i: int) -> int
    decreases t.len() - i,
{
    if i >= t.len() || white(t[i]) {
        i
    } else {
        word_end(t, i + 1)
    }
}

pub proof fn lemma_word_end(t: Seq<char>, i: int)
    requires
        i <= t.len(),
    ensures
        i <= word_end(t, i) <= t.len(),
        i < t.len() && !white(t[i]) ==> i < word_end(t, i),
        word_end(t, i) < t.len() ==> white(t[word_end(t, i)]),
        forall|j: int| i <= j < word_end(t, i) ==> !white(#[trigger] t[j]),
    decreases t.len() - i,
{
    if i < t.len() && !white(t[i]) {
        lemma_word_end(t, i + 1);
    }
}

/// The pieces of the text from `from` on, where `from..end` is packed already:
/// whole words are added, with the whitespace that stands between them, for as
/// long as the piece keeps to the budget.
pub open spec fn wrapped_from(t: Seq<char>, from: int, end: int, at: int) -> Seq<Seq<char>>
    decreases t.len() - at,
{
    if at >= t.len() {
        seq![t.subrange(from, end)]
    } else if white(t[at]) {
        wrapped_from(t, from, end, at + 1)
    } else {
        let next = word_end(t, at);
        proof {
            lemma_word_end(t, at);
        }
        if next - from > TARGET_CHARS {
            seq![t.subrange(from, end)] + wrapped_from(t, at, next, next)
        } else {
            wrapped_from(t, from, next, next)
        }
    }
}

/// A text that starts with a word, as whole words packed up to the budget.
pub open spec fn wrapped(t: Seq<char>) -> Seq<Seq<char>> {
    wrapped_from(t, 0, word_end(t, 0), word_end(t, 0))
}

/// A sentence, or its pieces where it does not fit the budget.
pub open spec fn sentence_units(s: Seq<char>) -> Seq<Seq<char>> {
    if s.len() <= TARGET_CHARS {
        seq![s]
    } else {
        wrapped(s)
    }
}

/// A paragraph, or its sentences where it does not fit the budget.
pub open spec fn paragraph_units(p: Seq<char>) -> Seq<Seq<char>> {
    if p.len() <= TARGET_CHARS {
        seq![p]
    } else {
        sentences_of(p).flat_map(|s: Seq<char>| sentence_units(s))
    }
}

/// The pieces chunks get packed from: paragraphs, split further only when one
/// cannot fit the budget on its own.
pub open spec fn units_of(t: Seq<char>) -> Seq<Seq<char>> {
    paragraphs_of(t).flat_map(|p: Seq<char>| paragraph_units(p))
}

/// The chunks of `current` and the units behind it: a unit joins the chunk
/// before it, after a space, where the budget allows.
pub open spec fn packed(current: Seq<char>, units: Seq<Seq<char>>) -> Seq<Seq<char>>
    decreases units.len(),
{
    if units.len() == 0 {
        if current.len() == 0 {
            Seq::empty()
        } else {
            seq![current]
        }
    } else if current.len() == 0 {
        packed(units[0], units.skip(1))
    } else if current.len() + 1 + units[0].len() > TARGET_CHARS {
        seq![current] + packed(units[0], units.skip(1))
    } else {
        packed(current + seq![' '] + units[0], units.skip(1))
    }
}

/// The chunks of a text, in order.
pub open spec fn chunks_of(t: Seq<char>) -> Seq<Seq<char>> {
    packed(Seq::empty(), units_of(t))
}

/// Add what is kept of a run.
fn keep<'a>(slices: &mut Vec<&'a [char]>, run: &'a [char])
    ensures
        views(final(slices)@) == views(old(slices)@) + kept(run@),
{
    if !all_white(run) {
        slices.push(trim(run));
    }
    assert(views(slices@) =~= views(old(slices)@) + kept(run@));
}

/// Runs of consecutive non-blank lines, trimmed.
fn paragraphs(text: &[char]) -> (result: Vec<&[char]>)
    ensures
        views(result@) == paragraphs_of(text@),
{
    let mut paragraphs: Vec<&[char]> = Vec::new();
    let mut from: usize = 0;
    let mut at: usize = 0;
    while at < text.len()
        invariant
            from <= at <= text@.len(),
            views(paragraphs@) + paragraphs_from(text@, from as int, at as int) == paragraphs_of(
                text@,
            ),
        decreases text@.len() - at,
    {
        let mut next: usize = at;
        let mut ended = false;
        while next < text.len() && !ended
            invariant
                at <= next <= text@.len(),
                at < text@.len(),
                ended ==> line_end(text@, at as int) == next,
                !ended ==> line_end(text@, at as int) == line_end(text@, next as int),
            decreases text@.len() - next,
        {
            ended = text[next] == '\n';
            next += 1;
        }
        proof {
            lemma_line_end(text@, at as int);
        }
        if all_white(slice_subrange(text, at, next)) {
            keep(&mut paragraphs, slice_subrange(text, from, at));
            from = next;
        }
        at = next;
    }
    keep(&mut paragraphs, slice_subrange(text, from, text.len()));
    paragraphs
}

/// Split behind `.`, `!` or `?` when whitespace follows.
///
/// Abbreviations ("e.g. this") therefore split too: the cost is a slightly
/// short chunk, and only inside a paragraph already too long to keep whole.
fn sentences(paragraph: &[char]) -> (result: Vec<&[char]>)
    ensures
        views(result@) == sentences_of(paragraph@),
{
    let mut sentences: Vec<&[char]> = Vec::new();
    let mut from: usize = 0;
    let mut at: usize = 0;
    while at < paragraph.len() && paragraph.len() - at > 1
        invariant
            from <= at <= paragraph@.len(),
            views(sentences@) + sentences_from(paragraph@, from as int, at as int) == sentences_of(
                paragraph@,
            ),
        decreases paragraph@.len() - at,
    {
        let stop = paragraph[at] == '.' || paragraph[at] == '!' || paragraph[at] == '?';
        if stop && is_white(paragraph[at + 1]) {
            keep(&mut sentences, slice_subrange(paragraph, from, at + 1));
            from = at + 1;
        }
        at += 1;
    }
    keep(&mut sentences, slice_subrange(paragraph, from, paragraph.len()));
    sentences
}

/// Last resort: pack whole words up to the budget.
///
/// The budget counts the whitespace as it stands in the text, not one space
/// per gap: a piece keeps its original spacing, so a paragraph padded with
/// newlines would otherwise sail past the limit.
fn wrap_words(text: &[char]) -> (result: Vec<&[char]>)
    ensures
        views(result@) == wrapped(text@),
{
    let mut pieces: Vec<&[char]> = Vec::new();
    let mut from: usize = 0;
    let mut end: usize = skip_word(text, 0);
    let mut at: usize = end;
    while at < text.len()
        invariant
            from <= end <= at <= text@.len(),
            views(pieces@) + wrapped_from(text@, from as int, end as int, at as int) == wrapped(
                text@,
            ),
        decreases text@.len() - at,
    {
        if is_white(text[at]) {
            at += 1;
        } else {
            let next: usize = skip_word(text, at);
            proof {
                lemma_word_end(text@, at as int);
            }
            if next - from > TARGET_CHARS {
                let ghost before = views(pieces@);
                pieces.push(slice_subrange(text, from, end));
                assert(views(pieces@) =~= before + seq![text@.subrange(from as int, end as int)]);
                from = at;
            }
            end = next;
            at = next;
        }
    }
    let ghost before = views(pieces@);
    pieces.push(slice_subrange(text, from, end));
    assert(views(pieces@) =~= before + seq![text@.subrange(from as int, end as int)]);
    pieces
}

/// Where the word that starts at `from` ends.
fn skip_word(text: &[char], from: usize) -> (end: usize)
    requires
        from <= text@.len(),
    ensures
        end == word_end(text@, from as int),
        from <= end <= text@.len(),
{
    let mut end: usize = from;
    while end < text.len() && !is_white(text[end])
        invariant
            from <= end <= text@.len(),
            word_end(text@, from as int) == word_end(text@, end as int),
        decreases text@.len() - end,
    {
        end += 1;
    }
    end
}

/// The pieces chunks get packed from: paragraphs, split further only when one
/// cannot fit the budget on its own.
fn units(text: &[char]) -> (result: Vec<&[char]>)
    ensures
        views(result@) == units_of(text@),
{
    let mut units: Vec<&[char]> = Vec::new();
    let paragraphs = paragraphs(text);
    let mut i: usize = 0;
    let ghost all = paragraphs_of(text@);
    let ghost split = |p: Seq<char>| paragraph_units(p);
    while i < paragraphs.len()
        invariant
            i <= paragraphs@.len(),
            views(paragraphs@) == all,
            split == (|p: Seq<char>| paragraph_units(p)),
            views(units@) == all.take(i as int).flat_map(split),
        decreases paragraphs@.len() - i,
    {
        let paragraph = paragraphs[i];
        let ghost before = views(units@);
        assert(all[i as int] == paragraph@);
        if paragraph.len() <= TARGET_CHARS {
            units.push(paragraph);
            assert(views(units@) =~= before + paragraph_units(paragraph@));
        } else {
            push_sentence_units(&mut units, paragraph);
        }
        proof {
            all.lemma_flat_map_take_append(split, i as int);
        }
        i += 1;
    }
    assert(all.take(all.len() as int) =~= all);
    units
}

/// Add the sentences of a paragraph, each one split where it does not fit.
fn push_sentence_units<'a>(units: &mut Vec<&'a [char]>, paragraph: &'a [char])
    ensures
        views(final(units)@) == views(old(units)@) + sentences_of(paragraph@).flat_map(
            |s: Seq<char>| sentence_units(s),
        ),
{
    let sentences = sentences(paragraph);
    let mut i: usize = 0;
    let ghost all = sentences_of(paragraph@);
    let ghost split = |s: Seq<char>| sentence_units(s);
    assert(views(units@) =~= views(old(units)@) + all.take(0).flat_map(split));
    while i < sentences.len()
        invariant
            i <= sentences@.len(),
            views(sentences@) == all,
            split == (|s: Seq<char>| sentence_units(s)),
            views(units@) == views(old(units)@) + all.take(i as int).flat_map(split),
        decreases sentences@.len() - i,
    {
        let sentence = sentences[i];
        let ghost before = views(units@);
        assert(all[i as int] == sentence@);
        if sentence.len() <= TARGET_CHARS {
            units.push(sentence);
        } else {
            let mut pieces = wrap_words(sentence);
            units.append(&mut pieces);
        }
        assert(views(units@) =~= before + sentence_units(sentence@));
        proof {
            all.lemma_flat_map_take_append(split, i as int);
        }
        i += 1;
    }
    assert(all.take(all.len() as int) =~= all);
}

/// Cut `text` into ordered chunks.
///
/// Each chunk stays within [`TARGET_CHARS`], with one exception: a single
/// unbroken run of non-whitespace longer than the budget (a base64 blob, a
/// minified line) has no boundary to cut at and becomes one oversized chunk.
/// Whitespace-only input yields no chunks.
pub fn chunk(text: &str) -> (chunks: Vec<String>)
    ensures
        texts(chunks@) == chunks_of(text@),
{
    let chars = to_chars(text);
    let units = units(chars.as_slice());
    let mut chunks: Vec<String> = Vec::new();
    let mut current = String::new();
    let mut taken: usize = 0;
    let mut i: usize = 0;
    let ghost all = units_of(text@);
    assert(all.skip(0) =~= all);
    while i < units.len()
        invariant
            i <= units@.len(),
            views(units@) == all,
            all == units_of(text@),
            taken == current@.len(),
            texts(chunks@) + packed(current@, all.skip(i as int)) == chunks_of(text@),
        decreases units@.len() - i,
    {
        let unit = units[i];
        let length: usize = unit.len();
        let ghost rest = all.skip(i as int);
        assert(rest[0] == unit@);
        assert(rest.skip(1) =~= all.skip(i + 1));
        assert(unit@.subrange(0, length as int) =~= unit@);
        let ghost before = texts(chunks@);
        let ghost so_far = current@;
        if taken > 0 && (taken >= TARGET_CHARS || length >= TARGET_CHARS - taken) {
            chunks.push(current);
            assert(texts(chunks@) =~= before + seq![chunks@.last()@]);
            current = String::new();
            taken = 0;
        }
        if taken > 0 {
            current.push(' ');
            taken += 1;
        }
        push_range(&mut current, unit, 0, length);
        taken += length;
        i += 1;
        proof {
            assert(Seq::<char>::empty() + unit@ =~= unit@);
            assert(so_far.push(' ') + unit@ =~= so_far + seq![' '] + unit@);
            assert(before + (seq![so_far] + packed(unit@, all.skip(i as int))) =~= before + seq![
                so_far,
            ] + packed(unit@, all.skip(i as int)));
        }
    }
    if taken > 0 {
        let ghost before = texts(chunks@);
        chunks.push(current);
        assert(texts(chunks@) =~= before + seq![chunks@.last()@]);
    }
    chunks
}

/// What every chunk is: something that starts with a word, within the budget
/// or without a place to cut.
pub open spec fn fits(s: Seq<char>) -> bool {
    &&& s.len() > 0
    &&& !white(s[0])
    &&& s.len() <= TARGET_CHARS || solid(s)
}

proof fn lemma_kept(run: Seq<char>)
    ensures
        all_words(kept(run)) == words(run),
        forall|i: int|
            0 <= i < kept(run).len() ==> (#[trigger] kept(run)[i]).len() > 0 && !white(
                kept(run)[i][0],
            ),
{
    lemma_trimmed_empty(run);
    lemma_trimmed_ends(run);
    if blank(run) {
        lemma_words_of_blank(run);
    } else {
        lemma_words_of_trimmed(run);
        lemma_all_words_one(trimmed(run));
    }
}

proof fn lemma_paragraphs(t: Seq<char>, from: int, at: int)
    requires
        0 <= from <= at <= t.len(),
        from < at < t.len() ==> white(t[at - 1]),
    ensures
        all_words(paragraphs_from(t, from, at)) == words(t.skip(from)),
        forall|i: int|
            0 <= i < paragraphs_from(t, from, at).len() ==> (#[trigger] paragraphs_from(
                t,
                from,
                at,
            )[i]).len() > 0 && !white(paragraphs_from(t, from, at)[i][0]),
    decreases t.len() - at,
{
    if at >= t.len() {
        assert(t.subrange(from, t.len() as int) =~= t.skip(from));
        lemma_kept(t.skip(from));
    } else {
        let next = line_end(t, at);
        lemma_line_end(t, at);
        let run = t.subrange(from, at);
        let line = t.subrange(at, next);
        if blank(line) {
            lemma_kept(run);
            lemma_paragraphs(t, next, next);
            lemma_all_words_add(kept(run), paragraphs_from(t, next, next));
            assert(run + t.skip(at) =~= t.skip(from));
            assert(line + t.skip(next) =~= t.skip(at));
            assert(white(line.last()));
            lemma_words_of_blank(line);
            lemma_words_split_after(Seq::empty(), line, t.skip(next));
            if from < at {
                assert(run.last() == t[at - 1]);
                lemma_words_split_after(Seq::empty(), run, t.skip(at));
            } else {
                assert(run + t.skip(at) =~= t.skip(at));
                assert(words(run) + words(t.skip(at)) =~= words(t.skip(at)));
            }
            assert(Seq::<Seq<char>>::empty() + words(t.skip(next)) =~= words(t.skip(next)));
        } else {
            lemma_paragraphs(t, from, next);
        }
    }
}

proof fn lemma_sentences(p: Seq<char>, from: int, at: int)
    requires
        0 <= from <= at,
        from <= p.len(),
    ensures
        all_words(sentences_from(p, from, at)) == words(p.skip(from)),
        forall|i: int|
            0 <= i < sentences_from(p, from, at).len() ==> (#[trigger] sentences_from(
                p,
                from,
                at,
            )[i]).len() > 0 && !white(sentences_from(p, from, at)[i][0]),
    decreases p.len() - at,
{
    if at + 1 >= p.len() {
        assert(p.subrange(from, p.len() as int) =~= p.skip(from));
        lemma_kept(p.skip(from));
    } else if full_stop(p[at]) && white(p[at + 1]) {
        let run = p.subrange(from, at + 1);
        let rest = p.skip(at + 1);
        lemma_kept(run);
        lemma_sentences(p, at + 1, at + 1);
        lemma_all_words_add(kept(run), sentences_from(p, at + 1, at + 1));
        assert(run + rest =~= p.skip(from));
        lemma_words_split(Seq::empty(), run, rest);
    } else {
        lemma_sentences(p, from, at + 1);
    }
}

proof fn lemma_wrapped_from(t: Seq<char>, from: int, end: int, at: int)
    requires
        0 <= from < end <= at <= t.len(),
        end < t.len() ==> white(t[end]),
        forall|i: int| end <= i < at ==> white(#[trigger] t[i]),
        fits(t.subrange(from, end)),
    ensures
        all_words(wrapped_from(t, from, end, at)) == words(t.subrange(from, end)) + words(
            t.skip(at),
        ),
        forall|i: int|
            0 <= i < wrapped_from(t, from, end, at).len() ==> fits(
                #[trigger] wrapped_from(t, from, end, at)[i],
            ),
    decreases t.len() - at,
{
    let piece = t.subrange(from, end);
    lemma_all_words_one(piece);
    if at >= t.len() {
        assert(t.skip(at) =~= Seq::<char>::empty());
        assert(words(t.skip(at)) =~= Seq::<Seq<char>>::empty());
        assert(words(piece) + words(t.skip(at)) =~= words(piece));
    } else if white(t[at]) {
        lemma_wrapped_from(t, from, end, at + 1);
        assert(t.skip(at).skip(1) =~= t.skip(at + 1));
        assert(Seq::<Seq<char>>::empty() + words(t.skip(at + 1)) =~= words(t.skip(at + 1)));
    } else {
        let next = word_end(t, at);
        lemma_word_end(t, at);
        let word = t.subrange(at, next);
        assert(solid(word)) by {
            assert forall|i: int| 0 <= i < word.len() implies !white(#[trigger] word[i]) by {
                assert(!white(t[at + i]));
            }
        }
        assert(t.skip(at) =~= word + t.skip(next));
        lemma_words_split(Seq::empty(), word, t.skip(next));
        if next - from > TARGET_CHARS {
            lemma_wrapped_from(t, at, next, next);
            lemma_all_words_add(seq![piece], wrapped_from(t, at, next, next));
        } else {
            assert(end < at);
            let gap = t.subrange(end, at);
            assert(blank(gap));
            assert(white(gap[0]) && white(gap.last()));
            assert(t.subrange(from, next) =~= piece + gap + word);
            lemma_words_split_after(Seq::empty(), piece + gap, word);
            lemma_words_split(Seq::empty(), piece, gap);
            lemma_words_of_blank(gap);
            assert(words(piece) + Seq::<Seq<char>>::empty() =~= words(piece));
            lemma_wrapped_from(t, from, next, next);
            assert(words(piece) + words(word) + words(t.skip(next)) =~= words(piece) + (words(word)
                + words(t.skip(next))));
        }
    }
}

proof fn lemma_sentence_units(s: Seq<char>)
    requires
        s.len() > 0,
        !white(s[0]),
    ensures
        all_words(sentence_units(s)) == words(s),
        forall|i: int| 0 <= i < sentence_units(s).len() ==> fits(#[trigger] sentence_units(s)[i]),
{
    if s.len() <= TARGET_CHARS {
        lemma_all_words_one(s);
    } else {
        let end = word_end(s, 0);
        lemma_word_end(s, 0);
        let word = s.subrange(0, end);
        assert(solid(word)) by {
            assert forall|i: int| 0 <= i < word.len() implies !white(#[trigger] word[i]) by {
                assert(!white(s[i]));
            }
        }
        lemma_wrapped_from(s, 0, end, end);
        assert(s =~= word + s.skip(end));
        lemma_words_split(Seq::empty(), word, s.skip(end));
    }
}

proof fn lemma_units(pieces: Seq<Seq<char>>, split: spec_fn(Seq<char>) -> Seq<Seq<char>>)
    requires
        forall|i: int|
            0 <= i < pieces.len() ==> all_words(#[trigger] split(pieces[i])) == words(pieces[i]),
        forall|i: int, j: int|
            0 <= i < pieces.len() && 0 <= j < split(pieces[i]).len() ==> fits(
                #[trigger] split(pieces[i])[j],
            ),
    ensures
        all_words(pieces.flat_map(split)) == all_words(pieces),
        forall|i: int|
            0 <= i < pieces.flat_map(split).len() ==> fits(#[trigger] pieces.flat_map(split)[i]),
    decreases pieces.len(),
{
    let parts = pieces.map_values(split);
    if pieces.len() > 0 {
        let rest = pieces.skip(1);
        assert forall|i: int| 0 <= i < rest.len() implies all_words(#[trigger] split(rest[i]))
            == words(rest[i]) by {
            assert(rest[i] == pieces[i + 1]);
        }
        assert forall|i: int, j: int|
            0 <= i < rest.len() && 0 <= j < split(rest[i]).len() implies fits(
            #[trigger] split(rest[i])[j],
        ) by {
            assert(rest[i] == pieces[i + 1]);
        }
        lemma_units(rest, split);
        assert(parts.drop_first() =~= rest.map_values(split));
        assert(parts[0] == split(pieces[0]));
        assert(pieces.flat_map(split) =~= split(pieces[0]) + rest.flat_map(split));
        lemma_all_words_add(split(pieces[0]), rest.flat_map(split));
    } else {
        assert(parts =~= Seq::empty());
    }
}

proof fn lemma_paragraph_units(p: Seq<char>)
    requires
        p.len() > 0,
        !white(p[0]),
    ensures
        all_words(paragraph_units(p)) == words(p),
        forall|i: int|
            0 <= i < paragraph_units(p).len() ==> fits(#[trigger] paragraph_units(p)[i]),
{
    if p.len() <= TARGET_CHARS {
        lemma_all_words_one(p);
    } else {
        let split = |s: Seq<char>| sentence_units(s);
        let pieces = sentences_of(p);
        lemma_sentences(p, 0, 0);
        assert(p.skip(0) =~= p);
        assert forall|i: int| 0 <= i < pieces.len() implies all_words(#[trigger] split(pieces[i]))
            == words(pieces[i]) by {
            lemma_sentence_units(pieces[i]);
        }
        assert forall|i: int, j: int|
            0 <= i < pieces.len() && 0 <= j < split(pieces[i]).len() implies fits(
            #[trigger] split(pieces[i])[j],
        ) by {
            lemma_sentence_units(pieces[i]);
        }
        lemma_units(pieces, split);
    }
}

proof fn lemma_packed(current: Seq<char>, units: Seq<Seq<char>>)
    requires
        current.len() == 0 || fits(current),
        forall|i: int| 0 <= i < units.len() ==> fits(#[trigger] units[i]),
    ensures
        all_words(packed(current, units)) == words(current) + all_words(units),
        forall|i: int|
            0 <= i < packed(current, units).len() ==> fits(#[trigger] packed(current, units)[i]),
    decreases units.len(),
{
    assert(words(Seq::empty()) =~= Seq::<Seq<char>>::empty());
    lemma_all_words_one(current);
    if units.len() == 0 {
        assert(words(current) + all_words(units) =~= words(current));
        if current.len() == 0 {
            assert(current =~= Seq::empty());
        }
    } else {
        let rest = units.skip(1);
        assert forall|i: int| 0 <= i < rest.len() implies fits(#[trigger] rest[i]) by {
            assert(rest[i] == units[i + 1]);
        }
        if current.len() == 0 {
            assert(current =~= Seq::empty());
            lemma_packed(units[0], rest);
            assert(words(current) + all_words(units) =~= all_words(units));
        } else if current.len() + 1 + units[0].len() > TARGET_CHARS {
            lemma_packed(units[0], rest);
            lemma_all_words_add(seq![current], packed(units[0], rest));
        } else {
            let gap = seq![' '];
            lemma_words_split_after(Seq::empty(), current + gap, units[0]);
            lemma_words_split(Seq::empty(), current, gap);
            lemma_words_of_blank(gap);
            assert(words(current) + Seq::<Seq<char>>::empty() =~= words(current));
            lemma_packed(current + gap + units[0], rest);
            assert(words(current) + words(units[0]) + all_words(rest) =~= words(current) + (words(
                units[0],
            ) + all_words(rest)));
        }
    }
}

proof fn lemma_chunks(t: Seq<char>)
    ensures
        all_words(chunks_of(t)) == words(t),
        forall|i: int| 0 <= i < chunks_of(t).len() ==> fits(#[trigger] chunks_of(t)[i]),
{
    let split = |p: Seq<char>| paragraph_units(p);
    let pieces = paragraphs_of(t);
    lemma_paragraphs(t, 0, 0);
    assert(t.skip(0) =~= t);
    assert forall|i: int| 0 <= i < pieces.len() implies all_words(#[trigger] split(pieces[i]))
        == words(pieces[i]) by {
        lemma_paragraph_units(pieces[i]);
    }
    assert forall|i: int, j: int|
        0 <= i < pieces.len() && 0 <= j < split(pieces[i]).len() implies fits(
        #[trigger] split(pieces[i])[j],
    ) by {
        lemma_paragraph_units(pieces[i]);
    }
    lemma_units(pieces, split);
    lemma_packed(Seq::empty(), units_of(t));
    assert(words(Seq::empty()) + all_words(units_of(t)) =~= all_words(units_of(t)));
}

/// Chunking loses nothing but whitespace: rejoined with spaces, the chunks
/// hold the words of the text, in their order.
pub proof fn chunking_loses_nothing_but_whitespace(t: Seq<char>)
    ensures
        words(joined(chunks_of(t), seq![' '])) == words(t),
{
    lemma_chunks(t);
    lemma_words_of_joined(chunks_of(t), seq![' ']);
}

/// Every chunk holds something, and is over the budget only where it has no
/// whitespace to be cut at.
pub proof fn chunking_respects_the_budget(t: Seq<char>)
    ensures
        forall|i: int|
            0 <= i < chunks_of(t).len() ==> (#[trigger] chunks_of(t)[i]).len() > 0 && (
            chunks_of(t)[i].len() <= TARGET_CHARS || solid(chunks_of(t)[i])),
{
    lemma_chunks(t);
}

/// Whitespace yields no chunks, and anything else yields some.
pub proof fn only_whitespace_yields_no_chunks(t: Seq<char>)
    ensures
        chunks_of(t).len() == 0 <==> blank(t),
{
    lemma_chunks(t);
    if chunks_of(t).len() == 0 {
        lemma_blank_of_no_words(Seq::empty(), t);
    }
    if blank(t) {
        lemma_words_of_blank(t);
        if chunks_of(t).len() > 0 {
            let first = chunks_of(t)[0];
            let rest = chunks_of(t).skip(1);
            assert(all_words(chunks_of(t)) == words(first) + all_words(rest));
            assert(words(first).len() == 0);
            lemma_blank_of_no_words(Seq::empty(), first);
            assert(fits(first) && white(first[0]));
        }
    }
}

/// A place where a line of the text starts, or where the text ends.
pub open spec fn line_bound(t: Seq<char>, i: int) -> bool {
    0 <= i <= t.len() && (i == 0 || i == t.len() || t[i - 1] == '\n')
}

/// `from..to` is a paragraph as a reader sees one: whole lines that each hold
/// something, with a blank line or an end of the text on either side.
pub open spec fn paragraph_at(t: Seq<char>, from: int, to: int) -> bool {
    &&& from < to
    &&& line_bound(t, from)
    &&& line_bound(t, to)
    &&& forall|a: int, b: int|
        from <= a < b <= to && line_bound(t, a) && line_bound(t, b) ==> !blank(
            #[trigger] t.subrange(a, b),
        )
    &&& from == 0 || exists|a: int|
        a < from && line_bound(t, a) && blank(#[trigger] t.subrange(a, from))
    &&& to == t.len() || exists|b: int|
        to < b && line_bound(t, b) && blank(#[trigger] t.subrange(to, b))
}

/// The text of the paragraph at `from..to`, without the whitespace around it.
pub open spec fn paragraph_text(t: Seq<char>, from: int, to: int) -> Seq<char> {
    trimmed(t.subrange(from, to))
}

/// Some chunk of the text holds `part` in one piece.
pub open spec fn held_whole(t: Seq<char>, part: Seq<char>) -> bool {
    exists|i: int| 0 <= i < chunks_of(t).len() && occurs(#[trigger] chunks_of(t)[i], part)
}

proof fn lemma_line_end_is_next(t: Seq<char>, i: int, bound: int)
    requires
        0 <= i < bound,
        line_bound(t, bound),
    ensures
        i < line_end(t, i) <= bound,
        line_bound(t, line_end(t, i)),
    decreases t.len() - i,
{
    lemma_line_end(t, i);
    if t[i] != '\n' {
        if i + 1 < bound {
            lemma_line_end_is_next(t, i + 1, bound);
        }
    }
}

proof fn lemma_part_of_blank(t: Seq<char>, a: int, b: int, from: int, to: int)
    requires
        0 <= from <= a <= b <= to <= t.len(),
        blank(t.subrange(from, to)),
    ensures
        blank(t.subrange(a, b)),
{
    assert forall|i: int| 0 <= i < t.subrange(a, b).len() implies white(
        #[trigger] t.subrange(a, b)[i],
    ) by {
        assert(white(t.subrange(from, to)[a + i - from]));
    }
}

/// A paragraph is among the paragraphs, wherever the reading stands before its
/// end.
proof fn lemma_paragraph_is_found(t: Seq<char>, held: int, at: int, from: int, to: int)
    requires
        0 <= held <= at <= t.len(),
        line_bound(t, at),
        paragraph_at(t, from, to),
        at < from || (held == from && from <= at <= to),
    ensures
        paragraphs_from(t, held, at).contains(paragraph_text(t, from, to)),
    decreases t.len() - at,
{
    let found = paragraph_text(t, from, to);
    assert(!blank(t.subrange(from, to)));
    assert(kept(t.subrange(from, to))[0] == found);
    if at >= t.len() {
        assert(at == to && held == from);
    } else {
        let next = line_end(t, at);
        lemma_line_end(t, at);
        if at < from {
            lemma_line_end_is_next(t, at, from);
            if blank(t.subrange(at, next)) {
                lemma_paragraph_is_found(t, next, next, from, to);
                let first = kept(t.subrange(held, at));
                let rest = paragraphs_from(t, next, next);
                let i = rest.index_of(found);
                assert((first + rest)[first.len() + i] == found);
            } else {
                if next == from {
                    let a = choose|a: int|
                        a < from && line_bound(t, a) && blank(#[trigger] t.subrange(a, from));
                    if a <= at {
                        lemma_part_of_blank(t, at, from, a, from);
                    } else {
                        lemma_line_end_is_next(t, at, a);
                    }
                }
                lemma_paragraph_is_found(t, held, next, from, to);
            }
        } else if at < to {
            lemma_line_end_is_next(t, at, to);
            assert(!blank(t.subrange(at, next)));
            lemma_paragraph_is_found(t, held, next, from, to);
        } else {
            let b = choose|b: int| to < b && line_bound(t, b) && blank(#[trigger] t.subrange(to, b));
            lemma_line_end_is_next(t, at, b);
            lemma_part_of_blank(t, at, next, to, b);
            let first = kept(t.subrange(held, at));
            let rest = paragraphs_from(t, next, next);
            assert((first + rest)[0] == found);
        }
    }
}

/// What a piece is split into is among what all of them are split into.
proof fn lemma_split_is_kept(
    pieces: Seq<Seq<char>>,
    split: spec_fn(Seq<char>) -> Seq<Seq<char>>,
    piece: Seq<char>,
    part: Seq<char>,
)
    requires
        pieces.contains(piece),
        split(piece).contains(part),
    ensures
        pieces.flat_map(split).contains(part),
    decreases pieces.len(),
{
    let rest = pieces.drop_last();
    let at = pieces.index_of(piece);
    assert(rest.push(pieces.last()) =~= pieces);
    rest.lemma_flat_map_push(split, pieces.last());
    let all = pieces.flat_map(split);
    if at == pieces.len() - 1 {
        let i = split(piece).index_of(part);
        assert(all[rest.flat_map(split).len() + i] == part);
    } else {
        assert(rest[at] == piece);
        lemma_split_is_kept(rest, split, piece, part);
        let i = rest.flat_map(split).index_of(part);
        assert(all[i] == part);
    }
}

/// What all pieces are split into comes from one of them.
proof fn lemma_split_comes_from(
    pieces: Seq<Seq<char>>,
    split: spec_fn(Seq<char>) -> Seq<Seq<char>>,
    i: int,
) -> (piece: Seq<char>)
    requires
        0 <= i < pieces.flat_map(split).len(),
    ensures
        pieces.contains(piece),
        split(piece).contains(pieces.flat_map(split)[i]),
    decreases pieces.len(),
{
    if pieces.len() == 0 {
        assert(pieces.map_values(split) =~= Seq::empty());
        assert(false);
        Seq::empty()
    } else {
        let rest = pieces.drop_last();
        assert(rest.push(pieces.last()) =~= pieces);
        rest.lemma_flat_map_push(split, pieces.last());
        let n = rest.flat_map(split).len();
        if i < n {
            let piece = lemma_split_comes_from(rest, split, i);
            assert(pieces[rest.index_of(piece)] == piece);
            piece
        } else {
            let piece = pieces.last();
            assert(pieces[pieces.len() - 1] == piece);
            assert(split(piece)[i - n] == pieces.flat_map(split)[i]);
            piece
        }
    }
}

/// Whatever goes into packing stands in one of the chunks.
proof fn lemma_packed_holds(current: Seq<char>, units: Seq<Seq<char>>, part: Seq<char>)
    requires
        part.len() > 0,
        occurs(current, part) || units.contains(part),
    ensures
        exists|i: int|
            0 <= i < packed(current, units).len() && occurs(
                #[trigger] packed(current, units)[i],
                part,
            ),
    decreases units.len(),
{
    let all = packed(current, units);
    let none = Seq::<char>::empty();
    if units.len() == 0 {
        assert(occurs(current, part));
        assert(current.len() > 0);
        assert(all[0] == current);
    } else {
        let unit = units[0];
        let rest = units.skip(1);
        if units.contains(part) && unit != part {
            let at = units.index_of(part);
            assert(rest[at - 1] == part);
        }
        if unit == part {
            what_is_put_between_occurs(none, unit, none);
            assert(none + unit + none =~= unit);
        }
        if current.len() == 0 {
            lemma_packed_holds(unit, rest, part);
        } else if current.len() + 1 + unit.len() > TARGET_CHARS {
            if occurs(current, part) {
                assert(all[0] == current);
            } else {
                lemma_packed_holds(unit, rest, part);
                let inner = packed(unit, rest);
                let i = choose|i: int| 0 <= i < inner.len() && occurs(#[trigger] inner[i], part);
                assert(all[i + 1] == inner[i]);
            }
        } else {
            let longer = current + seq![' '] + unit;
            if occurs(current, part) {
                what_is_put_between_occurs(none, current, seq![' '] + unit);
                assert(none + current + (seq![' '] + unit) =~= longer);
                a_part_of_a_part_occurs(longer, current, part);
            } else if unit == part {
                what_is_put_between_occurs(current + seq![' '], unit, none);
                assert(current + seq![' '] + unit + none =~= longer);
            }
            lemma_packed_holds(longer, rest, part);
        }
    }
}

/// A paragraph that fits the budget is not cut: one chunk holds the whole of
/// it, with its own line feeds and spaces.
pub proof fn a_paragraph_that_fits_is_not_cut(t: Seq<char>, from: int, to: int)
    requires
        paragraph_at(t, from, to),
        paragraph_text(t, from, to).len() <= 1500,
    ensures
        held_whole(t, paragraph_text(t, from, to)),
{
    let found = paragraph_text(t, from, to);
    let split = |p: Seq<char>| paragraph_units(p);
    lemma_trimmed_empty(t.subrange(from, to));
    lemma_paragraph_is_found(t, 0, 0, from, to);
    assert(split(found)[0] == found);
    lemma_split_is_kept(paragraphs_of(t), split, found, found);
    lemma_packed_holds(Seq::empty(), units_of(t), found);
    let i = choose|i: int|
        0 <= i < packed(Seq::empty(), units_of(t)).len() && occurs(
            #[trigger] packed(Seq::empty(), units_of(t))[i],
            found,
        );
    assert(occurs(chunks_of(t)[i], found));
}

/// A text that is one paragraph within the budget is one chunk: itself,
/// without the whitespace around it.
pub proof fn one_paragraph_that_fits_is_one_chunk(t: Seq<char>)
    requires
        paragraph_at(t, 0, t.len() as int),
        trimmed(t).len() <= 1500,
    ensures
        chunks_of(t) == seq![trimmed(t)],
{
    assert(t.subrange(0, t.len() as int) =~= t);
    assert(!blank(t));
    lemma_trimmed_empty(t);
    lemma_one_paragraph(t, 0);
    let split = |p: Seq<char>| paragraph_units(p);
    seq![trimmed(t)].lemma_flat_map_singleton(split);
    assert(units_of(t) =~= seq![trimmed(t)]);
    assert(units_of(t).skip(1) =~= Seq::empty());
    assert(packed(trimmed(t), units_of(t).skip(1)) =~= seq![trimmed(t)]);
}

proof fn lemma_one_paragraph(t: Seq<char>, at: int)
    requires
        paragraph_at(t, 0, t.len() as int),
        line_bound(t, at),
    ensures
        paragraphs_from(t, 0, at) == kept(t),
    decreases t.len() - at,
{
    assert(t.subrange(0, t.len() as int) =~= t);
    if at < t.len() {
        lemma_line_end_is_next(t, at, t.len() as int);
        assert(!blank(t.subrange(at, line_end(t, at))));
        lemma_one_paragraph(t, line_end(t, at));
    }
}

/// A place where one sentence of a paragraph ends and the next begins.
pub open spec fn sentence_break(p: Seq<char>, i: int) -> bool {
    0 < i < p.len() && (p[i - 1] == '.' || p[i - 1] == '!' || p[i - 1] == '?') && white(p[i])
}

/// `from..to` is a sentence of the paragraph.
pub open spec fn sentence_at(p: Seq<char>, from: int, to: int) -> bool {
    &&& 0 <= from < to <= p.len()
    &&& from == 0 || sentence_break(p, from)
    &&& to == p.len() || sentence_break(p, to)
    &&& forall|i: int| from < i < to ==> !#[trigger] sentence_break(p, i)
}

proof fn lemma_sentence_is_found(p: Seq<char>, held: int, at: int, from: int, to: int)
    requires
        0 <= held <= at,
        sentence_at(p, from, to),
        !blank(p.subrange(from, to)),
        at < from || (held == from && from <= at < to),
    ensures
        sentences_from(p, held, at).contains(trimmed(p.subrange(from, to))),
    decreases p.len() - at,
{
    let found = trimmed(p.subrange(from, to));
    assert(kept(p.subrange(from, to))[0] == found);
    if at + 1 >= p.len() {
        assert(held == from && to == p.len());
    } else if full_stop(p[at]) && white(p[at + 1]) {
        assert(sentence_break(p, at + 1));
        let first = kept(p.subrange(held, at + 1));
        let rest = sentences_from(p, at + 1, at + 1);
        if at < from {
            lemma_sentence_is_found(p, at + 1, at + 1, from, to);
            let i = rest.index_of(found);
            assert((first + rest)[first.len() + i] == found);
        } else {
            assert(at + 1 == to);
            assert((first + rest)[0] == found);
        }
    } else {
        assert(!sentence_break(p, at + 1));
        lemma_sentence_is_found(p, held, at + 1, from, to);
    }
}

/// A sentence that fits the budget is not cut either, where its paragraph is
/// too long to stay whole.
pub proof fn a_sentence_that_fits_is_not_cut(
    t: Seq<char>,
    from: int,
    to: int,
    start: int,
    end: int,
)
    requires
        paragraph_at(t, from, to),
        paragraph_text(t, from, to).len() > TARGET_CHARS,
        sentence_at(paragraph_text(t, from, to), start, end),
        0 < trimmed(paragraph_text(t, from, to).subrange(start, end)).len() <= TARGET_CHARS,
    ensures
        held_whole(t, trimmed(paragraph_text(t, from, to).subrange(start, end))),
{
    let p = paragraph_text(t, from, to);
    let found = trimmed(p.subrange(start, end));
    let by_sentence = |s: Seq<char>| sentence_units(s);
    let split = |p: Seq<char>| paragraph_units(p);
    lemma_trimmed_empty(p.subrange(start, end));
    lemma_paragraph_is_found(t, 0, 0, from, to);
    lemma_sentence_is_found(p, 0, 0, start, end);
    assert(by_sentence(found)[0] == found);
    lemma_split_is_kept(sentences_of(p), by_sentence, found, found);
    assert(split(p).contains(found));
    lemma_split_is_kept(paragraphs_of(t), split, p, found);
    lemma_packed_holds(Seq::empty(), units_of(t), found);
    let i = choose|i: int|
        0 <= i < packed(Seq::empty(), units_of(t)).len() && occurs(
            #[trigger] packed(Seq::empty(), units_of(t))[i],
            found,
        );
    assert(occurs(chunks_of(t)[i], found));
}

/// The first chunk starts with what is packed already.
proof fn lemma_packed_first(current: Seq<char>, units: Seq<Seq<char>>)
    requires
        current.len() > 0,
    ensures
        packed(current, units).len() > 0,
        packed(current, units)[0].len() >= current.len(),
    decreases units.len(),
{
    if units.len() > 0 && current.len() + 1 + units[0].len() <= TARGET_CHARS {
        lemma_packed_first(current + seq![' '] + units[0], units.skip(1));
    }
}

proof fn lemma_packed_tight(current: Seq<char>, units: Seq<Seq<char>>, i: int)
    requires
        forall|j: int| 0 <= j < units.len() ==> (#[trigger] units[j]).len() > 0,
        0 <= i < packed(current, units).len() - 1,
    ensures
        packed(current, units)[i].len() + 1 + packed(current, units)[i + 1].len() > TARGET_CHARS,
    decreases units.len(),
{
    if units.len() > 0 {
        let rest = units.skip(1);
        assert forall|j: int| 0 <= j < rest.len() implies (#[trigger] rest[j]).len() > 0 by {
            assert(rest[j] == units[j + 1]);
        }
        if current.len() == 0 {
            lemma_packed_tight(units[0], rest, i);
        } else if current.len() + 1 + units[0].len() > TARGET_CHARS {
            let inner = packed(units[0], rest);
            if i == 0 {
                lemma_packed_first(units[0], rest);
            } else {
                lemma_packed_tight(units[0], rest, i - 1);
                assert(packed(current, units)[i] == inner[i - 1]);
            }
            assert(packed(current, units)[i + 1] == inner[i]);
        } else {
            lemma_packed_tight(current + seq![' '] + units[0], rest, i);
        }
    }
}

proof fn lemma_units_fit(t: Seq<char>)
    ensures
        forall|i: int| 0 <= i < units_of(t).len() ==> fits(#[trigger] units_of(t)[i]),
{
    let split = |p: Seq<char>| paragraph_units(p);
    let pieces = paragraphs_of(t);
    lemma_paragraphs(t, 0, 0);
    assert forall|i: int| 0 <= i < pieces.len() implies all_words(#[trigger] split(pieces[i]))
        == words(pieces[i]) by {
        lemma_paragraph_units(pieces[i]);
    }
    assert forall|i: int, j: int|
        0 <= i < pieces.len() && 0 <= j < split(pieces[i]).len() implies fits(
        #[trigger] split(pieces[i])[j],
    ) by {
        lemma_paragraph_units(pieces[i]);
    }
    lemma_units(pieces, split);
}

/// Chunks are no smaller than they have to be: no two neighbours would fit the
/// budget together.
pub proof fn no_two_neighbouring_chunks_fit_together(t: Seq<char>, i: int)
    requires
        0 <= i < chunks_of(t).len() - 1,
    ensures
        chunks_of(t)[i].len() + 1 + chunks_of(t)[i + 1].len() > 1500,
{
    lemma_units_fit(t);
    lemma_packed_tight(Seq::empty(), units_of(t), i);
}

proof fn lemma_joined_packed(current: Seq<char>, units: Seq<Seq<char>>)
    requires
        current.len() > 0,
        forall|j: int| 0 <= j < units.len() ==> (#[trigger] units[j]).len() > 0,
    ensures
        packed(current, units).len() > 0,
        joined(packed(current, units), seq![' ']) == joined(seq![current] + units, seq![' ']),
    decreases units.len(),
{
    let gap = seq![' '];
    let all = seq![current] + units;
    if units.len() == 0 {
        assert(all =~= seq![current]);
    } else {
        let unit = units[0];
        let rest = units.skip(1);
        assert forall|j: int| 0 <= j < rest.len() implies (#[trigger] rest[j]).len() > 0 by {
            assert(rest[j] == units[j + 1]);
        }
        assert(all.skip(1) =~= units);
        assert(seq![unit] + rest =~= units);
        if current.len() + 1 + unit.len() > TARGET_CHARS {
            lemma_joined_packed(unit, rest);
            let inner = packed(unit, rest);
            assert(packed(current, units).skip(1) =~= inner);
        } else {
            let longer = current + gap + unit;
            lemma_joined_packed(longer, rest);
            let shorter = seq![longer] + rest;
            assert(shorter.skip(1) =~= rest);
            if rest.len() > 0 {
                assert(joined(units, gap) == unit + gap + joined(rest, gap));
                assert(joined(shorter, gap) =~= joined(all, gap));
            } else {
                assert(joined(units, gap) == unit);
                assert(joined(shorter, gap) =~= joined(all, gap));
            }
        }
    }
}

/// Packing changes nothing but where the chunks end: with a space between
/// neighbours, the chunks read as the pieces do.
pub proof fn packing_only_groups_the_pieces(t: Seq<char>)
    ensures
        joined(chunks_of(t), seq![' ']) == joined(units_of(t), seq![' ']),
{
    lemma_units_fit(t);
    let units = units_of(t);
    assert forall|j: int| 0 <= j < units.len() implies (#[trigger] units[j]).len() > 0 by {
        assert(fits(units[j]));
    }
    if units.len() > 0 {
        let rest = units.skip(1);
        assert forall|j: int| 0 <= j < rest.len() implies (#[trigger] rest[j]).len() > 0 by {
            assert(rest[j] == units[j + 1]);
        }
        lemma_joined_packed(units[0], rest);
        assert(seq![units[0]] + rest =~= units);
    }
}

/// Each of the parts stands in the text.
spec fn all_occur(t: Seq<char>, parts: Seq<Seq<char>>) -> bool {
    forall|i: int| 0 <= i < parts.len() ==> occurs(t, #[trigger] parts[i])
}

proof fn lemma_all_occur_add(t: Seq<char>, a: Seq<Seq<char>>, b: Seq<Seq<char>>)
    requires
        all_occur(t, a),
        all_occur(t, b),
    ensures
        all_occur(t, a + b),
{
    assert forall|i: int| 0 <= i < (a + b).len() implies occurs(t, #[trigger] (a + b)[i]) by {
        if i < a.len() {
            assert(occurs(t, a[i]));
        } else {
            assert(occurs(t, b[i - a.len()]));
        }
    }
}

proof fn lemma_kept_occurs(t: Seq<char>, from: int, to: int)
    requires
        0 <= from <= to <= t.len(),
    ensures
        all_occur(t, kept(t.subrange(from, to))),
{
    let run = t.subrange(from, to);
    trimming_takes_only_whitespace(run);
    a_stretch_occurs(t, from, to);
    a_part_of_a_part_occurs(t, run, trimmed(run));
}

proof fn lemma_paragraphs_occur(t: Seq<char>, from: int, at: int)
    requires
        0 <= from <= at <= t.len(),
    ensures
        all_occur(t, paragraphs_from(t, from, at)),
    decreases t.len() - at,
{
    if at >= t.len() {
        lemma_kept_occurs(t, from, t.len() as int);
    } else {
        let next = line_end(t, at);
        lemma_line_end(t, at);
        if blank(t.subrange(at, next)) {
            lemma_kept_occurs(t, from, at);
            lemma_paragraphs_occur(t, next, next);
            lemma_all_occur_add(t, kept(t.subrange(from, at)), paragraphs_from(t, next, next));
        } else {
            lemma_paragraphs_occur(t, from, next);
        }
    }
}

proof fn lemma_sentences_occur(p: Seq<char>, from: int, at: int)
    requires
        0 <= from <= at,
        from <= p.len(),
    ensures
        all_occur(p, sentences_from(p, from, at)),
    decreases p.len() - at,
{
    if at + 1 >= p.len() {
        lemma_kept_occurs(p, from, p.len() as int);
    } else if full_stop(p[at]) && white(p[at + 1]) {
        lemma_kept_occurs(p, from, at + 1);
        lemma_sentences_occur(p, at + 1, at + 1);
        lemma_all_occur_add(
            p,
            kept(p.subrange(from, at + 1)),
            sentences_from(p, at + 1, at + 1),
        );
    } else {
        lemma_sentences_occur(p, from, at + 1);
    }
}

proof fn lemma_wrapped_occur(t: Seq<char>, from: int, end: int, at: int)
    requires
        0 <= from <= end <= at <= t.len(),
    ensures
        all_occur(t, wrapped_from(t, from, end, at)),
    decreases t.len() - at,
{
    a_stretch_occurs(t, from, end);
    if at < t.len() {
        if white(t[at]) {
            lemma_wrapped_occur(t, from, end, at + 1);
        } else {
            let next = word_end(t, at);
            lemma_word_end(t, at);
            if next - from > TARGET_CHARS {
                lemma_wrapped_occur(t, at, next, next);
                lemma_all_occur_add(
                    t,
                    seq![t.subrange(from, end)],
                    wrapped_from(t, at, next, next),
                );
            } else {
                lemma_wrapped_occur(t, from, next, next);
            }
        }
    }
}

/// Every piece that chunks are packed from is cut out of the text as it
/// stands: nothing inside it is changed, not even its whitespace.
pub proof fn every_piece_stands_in_the_text(t: Seq<char>, i: int)
    requires
        0 <= i < units_of(t).len(),
    ensures
        occurs(t, units_of(t)[i]),
{
    let split = |p: Seq<char>| paragraph_units(p);
    let by_sentence = |s: Seq<char>| sentence_units(s);
    let unit = units_of(t)[i];
    let p = lemma_split_comes_from(paragraphs_of(t), split, i);
    lemma_paragraphs_occur(t, 0, 0);
    assert(occurs(t, paragraphs_of(t)[paragraphs_of(t).index_of(p)]));
    if p.len() <= TARGET_CHARS {
        assert(unit == p);
    } else {
        let parts = sentences_of(p).flat_map(by_sentence);
        assert(split(p) == parts);
        let j = parts.index_of(unit);
        let s = lemma_split_comes_from(sentences_of(p), by_sentence, j);
        lemma_sentences_occur(p, 0, 0);
        assert(occurs(p, sentences_of(p)[sentences_of(p).index_of(s)]));
        a_part_of_a_part_occurs(t, p, s);
        if s.len() <= TARGET_CHARS {
            assert(unit == s);
        } else {
            lemma_word_end(s, 0);
            lemma_wrapped_occur(s, 0, word_end(s, 0), word_end(s, 0));
            assert(occurs(s, wrapped(s)[wrapped(s).index_of(unit)]));
            a_part_of_a_part_occurs(t, s, unit);
        }
    }
}

/// The sentence is cut behind `piece` because the word that `next` starts with
/// would have taken it over the budget, counting the whitespace between them.
pub open spec fn cut_for_want_of_room(s: Seq<char>, piece: Seq<char>, next: Seq<char>) -> bool {
    exists|from: int, end: int, word: int, to: int|
        0 <= from <= end <= word < to <= s.len() && to - from > TARGET_CHARS && piece
            == s.subrange(from, end) && blank(s.subrange(end, word)) && solid(
            #[trigger] s.subrange(word, to),
        ) && #[trigger] s.subrange(from, end) == piece && starts_with(next, s.subrange(word, to))
}

proof fn lemma_wrapped_first(t: Seq<char>, from: int, end: int, at: int)
    requires
        0 <= from <= end <= at <= t.len(),
    ensures
        wrapped_from(t, from, end, at).len() > 0,
        starts_with(wrapped_from(t, from, end, at)[0], t.subrange(from, end)),
    decreases t.len() - at,
{
    let piece = t.subrange(from, end);
    assert(piece.subrange(0, piece.len() as int) =~= piece);
    if at < t.len() {
        if white(t[at]) {
            lemma_wrapped_first(t, from, end, at + 1);
        } else {
            let next = word_end(t, at);
            lemma_word_end(t, at);
            if next - from <= TARGET_CHARS {
                lemma_wrapped_first(t, from, next, next);
                let first = wrapped_from(t, from, next, next)[0];
                assert(first.subrange(0, piece.len() as int) =~= first.subrange(
                    0,
                    next - from,
                ).subrange(0, piece.len() as int));
                assert(t.subrange(from, next).subrange(0, piece.len() as int) =~= piece);
            }
        }
    }
}

proof fn lemma_wrapped_tight(t: Seq<char>, from: int, end: int, at: int, i: int)
    requires
        0 <= from <= end <= at <= t.len(),
        blank(t.subrange(end, at)),
        0 <= i < wrapped_from(t, from, end, at).len() - 1,
    ensures
        cut_for_want_of_room(
            t,
            wrapped_from(t, from, end, at)[i],
            wrapped_from(t, from, end, at)[i + 1],
        ),
    decreases t.len() - at,
{
    if at < t.len() {
        if white(t[at]) {
            assert forall|j: int| 0 <= j < t.subrange(end, at + 1).len() implies white(
                #[trigger] t.subrange(end, at + 1)[j],
            ) by {
                if j < at - end {
                    assert(t.subrange(end, at)[j] == t[end + j]);
                }
            }
            lemma_wrapped_tight(t, from, end, at + 1, i);
        } else {
            let next = word_end(t, at);
            lemma_word_end(t, at);
            assert(blank(t.subrange(next, next)));
            if next - from > TARGET_CHARS {
                let inner = wrapped_from(t, at, next, next);
                assert(wrapped_from(t, from, end, at)[i + 1] == inner[i]);
                if i == 0 {
                    lemma_wrapped_first(t, at, next, next);
                    let word = t.subrange(at, next);
                    assert forall|j: int| 0 <= j < word.len() implies !white(#[trigger] word[j]) by {
                        assert(!white(t[at + j]));
                    }
                    assert(wrapped_from(t, from, end, at)[0] == t.subrange(from, end));
                } else {
                    assert(wrapped_from(t, from, end, at)[i] == inner[i - 1]);
                    lemma_wrapped_tight(t, at, next, next, i - 1);
                }
            } else {
                lemma_wrapped_tight(t, from, next, next, i);
            }
        }
    }
}

/// A sentence too long for a chunk is cut no more often than it has to be, and
/// never inside a word: where it is cut, the next word did not fit.
pub proof fn a_long_sentence_is_cut_for_want_of_room(s: Seq<char>, i: int)
    requires
        0 <= i < sentence_units(s).len() - 1,
    ensures
        cut_for_want_of_room(s, sentence_units(s)[i], sentence_units(s)[i + 1]),
{
    let end = word_end(s, 0);
    lemma_word_end(s, 0);
    assert(blank(s.subrange(end, end)));
    lemma_wrapped_tight(s, 0, end, end, i);
}

} // verus!
