//! Characters, and the passage between strings and vectors of them.

use vstd::prelude::*;

verus! {

/// [`String::push`] appends one character to the end of the string.
pub assume_specification[ String::push ](text: &mut String, character: char)
    ensures
        final(text)@ == old(text)@.push(character),
;

/// A character with the Unicode `White_Space` property.
pub open spec fn white(c: char) -> bool {
    ||| '\u{9}' <= c <= '\u{d}'
    ||| c == ' '
    ||| c == '\u{85}'
    ||| c == '\u{a0}'
    ||| c == '\u{1680}'
    ||| '\u{2000}' <= c <= '\u{200a}'
    ||| c == '\u{2028}'
    ||| c == '\u{2029}'
    ||| c == '\u{202f}'
    ||| c == '\u{205f}'
    ||| c == '\u{3000}'
}

/// Whether `c` is whitespace.
pub fn is_white(c: char) -> (result: bool)
    ensures
        result == white(c),
{
    ('\u{9}' <= c && c <= '\u{d}') || c == ' ' || c == '\u{85}' || c == '\u{a0}' || c == '\u{1680}'
        || ('\u{2000}' <= c && c <= '\u{200a}') || c == '\u{2028}' || c == '\u{2029}' || c
        == '\u{202f}' || c == '\u{205f}' || c == '\u{3000}'
}

/// Nothing but whitespace.
pub open spec fn blank(s: Seq<char>) -> bool {
    forall|i: int| 0 <= i < s.len() ==> white(#[trigger] s[i])
}

/// Free of whitespace.
pub open spec fn solid(s: Seq<char>) -> bool {
    forall|i: int| 0 <= i < s.len() ==> !white(#[trigger] s[i])
}

/// The characters of a string, in order.
pub fn to_chars(text: &str) -> (chars: Vec<char>)
    ensures
        chars@ == text@,
{
    let mut chars: Vec<char> = Vec::new();
    for c in iter: text.chars()
        invariant
            chars@ == text@.take(iter.index()),
            iter.seq() == text@,
    {
        chars.push(c);
    }
    assert(text@.take(text@.len() as int) == text@);
    chars
}

/// The text of an optional string.
pub open spec fn text_of(text: Option<String>) -> Option<Seq<char>> {
    match text {
        Some(text) => Some(text@),
        None => None,
    }
}

/// A copy of an optional string.
pub fn copy_text(text: &Option<String>) -> (copy: Option<String>)
    ensures
        copy == *text,
{
    match text {
        Some(text) => Some(text.clone()),
        None => None,
    }
}

/// A copy of some strings.
pub fn copy_texts(strings: &Vec<String>) -> (copy: Vec<String>)
    ensures
        copy@ == strings@,
{
    let mut copy: Vec<String> = Vec::new();
    let mut i: usize = 0;
    while i < strings.len()
        invariant
            i <= strings@.len(),
            copy@ == strings@.take(i as int),
        decreases strings@.len() - i,
    {
        copy.push(strings[i].clone());
        i += 1;
        assert(copy@ =~= strings@.take(i as int));
    }
    assert(copy@ =~= strings@);
    copy
}

/// The texts of some slices.
pub open spec fn views(slices: Seq<&[char]>) -> Seq<Seq<char>> {
    slices.map_values(|slice: &[char]| slice@)
}

/// The texts of some strings.
pub open spec fn texts(strings: Seq<String>) -> Seq<Seq<char>> {
    strings.map_values(|s: String| s@)
}

/// The texts of some string slices.
pub open spec fn str_texts(slices: Seq<&str>) -> Seq<Seq<char>> {
    slices.map_values(|slice: &str| slice@)
}

/// Whether a text holds nothing but whitespace.
pub fn is_blank(text: &str) -> (result: bool)
    ensures
        result == blank(text@),
{
    all_white(to_chars(text).as_slice())
}

/// Whether the characters are all whitespace.
pub fn all_white(chars: &[char]) -> (result: bool)
    ensures
        result == blank(chars@),
{
    let mut i: usize = 0;
    while i < chars.len()
        invariant
            i <= chars@.len(),
            forall|j: int| 0 <= j < i ==> white(#[trigger] chars@[j]),
        decreases chars@.len() - i,
    {
        if !is_white(chars[i]) {
            return false;
        }
        i += 1;
    }
    true
}

/// Append the characters from `from` up to `to`.
pub fn push_range(text: &mut String, chars: &[char], from: usize, to: usize)
    requires
        from <= to <= chars@.len(),
    ensures
        final(text)@ == old(text)@ + chars@.subrange(from as int, to as int),
{
    let mut i: usize = from;
    while i < to
        invariant
            from <= i <= to <= chars@.len(),
            text@ == old(text)@ + chars@.subrange(from as int, i as int),
        decreases to - i,
    {
        text.push(chars[i]);
        i += 1;
    }
}

/// The characters from `from` up to `to`, as a string.
pub fn range_to_string(chars: &[char], from: usize, to: usize) -> (text: String)
    requires
        from <= to <= chars@.len(),
    ensures
        text@ == chars@.subrange(from as int, to as int),
{
    let mut text = String::new();
    push_range(&mut text, chars, from, to);
    text
}

/// The characters as a string.
pub fn to_text(chars: &[char]) -> (text: String)
    ensures
        text@ == chars@,
{
    range_to_string(chars, 0, chars.len())
}

/// What whitespace is, by number: the ASCII blanks and line ends, and the
/// spaces and line ends of other scripts.
pub proof fn whitespace_is_these_characters(c: char)
    ensures
        white(c) <==> ({
            let n = c as int;
            ||| n == 32
            ||| 9 <= n <= 13
            ||| n == 133
            ||| n == 160
            ||| n == 5760
            ||| 8192 <= n <= 8202
            ||| n == 8232
            ||| n == 8233
            ||| n == 8239
            ||| n == 8287
            ||| n == 12288
        }),
{
}

/// A text is blank where each of its parts is, and solid likewise; only the
/// empty text is both.
pub proof fn blank_and_solid_texts_are_so_throughout(a: Seq<char>, b: Seq<char>)
    ensures
        blank(a + b) <==> blank(a) && blank(b),
        solid(a + b) <==> solid(a) && solid(b),
        blank(a) && solid(a) ==> a.len() == 0,
{
    let whole = a + b;
    if blank(whole) {
        assert forall|i: int| 0 <= i < a.len() implies white(#[trigger] a[i]) by {
            assert(whole[i] == a[i]);
        }
        assert forall|i: int| 0 <= i < b.len() implies white(#[trigger] b[i]) by {
            assert(whole[a.len() + i] == b[i]);
        }
    }
    if solid(whole) {
        assert forall|i: int| 0 <= i < a.len() implies !white(#[trigger] a[i]) by {
            assert(whole[i] == a[i]);
        }
        assert forall|i: int| 0 <= i < b.len() implies !white(#[trigger] b[i]) by {
            assert(whole[a.len() + i] == b[i]);
        }
    }
    if blank(a) && solid(a) && a.len() > 0 {
        assert(white(a[0]));
    }
}

/// The texts of some strings are those strings' texts, each in its place.
pub proof fn every_string_has_its_text(strings: Seq<String>, slices: Seq<&str>, i: int)
    ensures
        texts(strings).len() == strings.len(),
        0 <= i < strings.len() ==> texts(strings)[i] == strings[i]@,
        str_texts(slices).len() == slices.len(),
        0 <= i < slices.len() ==> str_texts(slices)[i] == slices[i]@,
{
}

} // verus!
