//! Duplicate gates for the write path.
//!
//! Two gates, deliberately different in kind: an exact one that costs nothing
//! (blake3 over normalized content, enforced by the store's unique index) and
//! a semantic one that costs an embedding (cosine against the nearest live
//! neighbour). The first stops re-runs of the same distillation; the second
//! stops the same claim in different words.

use vstd::prelude::*;
use vstd::utf8::{encode_utf8, encode_utf8_decode_utf8};

use crate::text::case::{
    all_lowered, ascii, ascii_lowered, lemma_ascii_joined, lemma_ascii_words,
    lemma_lowered_joined, lowering_is_idempotent, lowering_keeps_the_words,
};
use crate::text::chars::{solid, to_chars, white};
use crate::text::number::hex_digit;
use crate::text::standard::{lowercased, to_lowercase};
use crate::text::words::{
    all_words, flushed, join_slices, joined, lemma_all_words_add, lemma_all_words_one,
    lemma_words_of_joined, lemma_words_of_solid, split_words, words, words_from,
};

verus! {

/// The words of a text with one space between neighbours.
pub open spec fn collapsed(content: Seq<char>) -> Seq<char> {
    joined(words(content), " "@)
}

/// What identity depends on.
pub open spec fn normal_form(content: Seq<char>) -> Seq<char> {
    lowercased(collapsed(content))
}

/// Fold content down to what identity should depend on: case and whitespace
/// carry no meaning for "have I already stored this?".
pub fn normalize(content: &str) -> (result: String)
    ensures
        result@ == normal_form(content@),
        result@ == lowercased(joined(words(content@), " "@)),
        ascii(content@) ==> result@ == ascii_lowered(joined(words(content@), " "@)),
        ascii(content@) ==> result@ == ascii_lowered(collapsed(content@)),
{
    let chars = to_chars(content);
    let parts = split_words(chars.as_slice());
    let spaced = join_slices(parts.as_slice(), " ");
    proof {
        if ascii(content@) {
            folding_is_idempotent_on_ascii(content@);
        }
    }
    to_lowercase(spaced.as_str())
}

/// The blake3 digest of some bytes.
pub uninterp spec fn blake3_digest(bytes: Seq<u8>) -> Seq<u8>;

/// `blake3::hash`: the default-mode BLAKE3 digest of the bytes, 32 bytes that
/// depend on them alone. How they are computed is not stated.
#[verifier::external_body]
fn blake3_hash(bytes: &[u8]) -> (digest: Vec<u8>)
    ensures
        digest@ == blake3_digest(bytes@),
        digest@.len() == 32,
{
    blake3::hash(bytes).as_bytes().to_vec()
}

/// Bytes in lowercase hexadecimal, the high half of each byte first.
pub open spec fn hex(bytes: Seq<u8>) -> Seq<char>
    decreases bytes.len(),
{
    if bytes.len() == 0 {
        Seq::empty()
    } else {
        hex(bytes.drop_last()).push(hex_digit(bytes.last() as int / 16)).push(
            hex_digit(bytes.last() as int % 16),
        )
    }
}

/// The character of a hexadecimal digit.
fn to_hex_digit(d: u8) -> (c: char)
    requires
        d < 16,
    ensures
        c == hex_digit(d as int),
{
    if d < 10 {
        (48u8 + d) as char
    } else {
        (87u8 + d) as char
    }
}

/// Bytes in lowercase hexadecimal.
fn to_hex(bytes: &[u8]) -> (text: String)
    ensures
        text@ == hex(bytes@),
{
    let mut text = String::new();
    let mut i: usize = 0;
    while i < bytes.len()
        invariant
            i <= bytes@.len(),
            text@ == hex(bytes@.take(i as int)),
        decreases bytes@.len() - i,
    {
        text.push(to_hex_digit(bytes[i] / 16));
        text.push(to_hex_digit(bytes[i] % 16));
        i += 1;
        assert(bytes@.take(i as int).drop_last() =~= bytes@.take(i - 1));
    }
    assert(bytes@.take(i as int) =~= bytes@);
    text
}

/// The hash of some content: blake3 of its normal form, in hexadecimal.
pub open spec fn hash_of(content: Seq<char>) -> Seq<char> {
    hex(blake3_digest(encode_utf8(normal_form(content))))
}

/// blake3 of the normalized content, hex-encoded: the value behind the
/// unique `(space, content_hash)` index.
pub fn content_hash(content: &str) -> (hash: String)
    ensures
        hash@ == hash_of(content@),
        hash@ == hex(blake3_digest(encode_utf8(lowercased(joined(words(content@), " "@))))),
        hash@.len() == 64,
{
    let normal = normalize(content);
    let digest = blake3_hash(normal.as_str().as_bytes());
    let hash = to_hex(digest.as_slice());
    proof {
        hex_doubles_the_length(digest@);
    }
    hash
}

/// Two characters for every byte.
pub proof fn hex_doubles_the_length(bytes: Seq<u8>)
    ensures
        hex(bytes).len() == 2 * bytes.len(),
    decreases bytes.len(),
{
    if bytes.len() > 0 {
        hex_doubles_the_length(bytes.drop_last());
    }
}

/// Different bytes have different hexadecimal forms.
pub proof fn hex_is_injective(a: Seq<u8>, b: Seq<u8>)
    requires
        hex(a) == hex(b),
    ensures
        a == b,
    decreases a.len(),
{
    hex_doubles_the_length(a);
    hex_doubles_the_length(b);
    if a.len() > 0 {
        let x = hex(a);
        let y = hex(b);
        assert(x.drop_last().drop_last() =~= hex(a.drop_last()));
        assert(y.drop_last().drop_last() =~= hex(b.drop_last()));
        hex_is_injective(a.drop_last(), b.drop_last());
        assert(x[x.len() - 1] == hex_digit(a.last() as int % 16));
        assert(x[x.len() - 2] == hex_digit(a.last() as int / 16));
        assert(y[y.len() - 1] == hex_digit(b.last() as int % 16));
        assert(y[y.len() - 2] == hex_digit(b.last() as int / 16));
        assert(a.last() == b.last());
        assert(a =~= a.drop_last().push(a.last()));
        assert(b =~= b.drop_last().push(b.last()));
    } else {
        assert(a =~= b);
    }
}

/// The cosine bands one embedding model's vectors are read against, in
/// hundredths of similarity.
///
/// Cosine similarity means something different for every model (BGE-small's
/// unrelated pairs score high, EmbeddingGemma's score near zero), so every
/// bar is data carried by the model, never a constant a caller reaches for.
#[derive(Debug, Clone, Copy, PartialEq, Eq, Structural)]
pub struct Bands {
    /// At or above it two memories state the same thing.
    pub near_dup: u8,
    /// Below it two memories are simply about different things.
    pub correction_floor: u8,
    /// At or above it two stored memories are worth offering as one cluster.
    pub cluster: u8,
    /// Below it a recall page's best measured hit is not an answer.
    pub abstention: u8,
}

impl Bands {
    /// The correction band is non-empty and ends where duplicates begin, the
    /// cluster bar stays inside it, and no answer is called one below the floor.
    pub open spec fn ordered(self) -> bool {
        self.abstention < self.correction_floor < self.cluster <= self.near_dup <= 100
    }

    /// bge-small-en-v1.5.
    pub open spec fn of_bge_small() -> Bands {
        Bands { near_dup: 95, correction_floor: 75, cluster: 90, abstention: 62 }
    }

    /// EmbeddingGemma-300M.
    pub open spec fn of_gemma_300m() -> Bands {
        Bands { near_dup: 95, correction_floor: 70, cluster: 90, abstention: 14 }
    }

    /// bge-small-en-v1.5, the calibration everything was first measured on.
    pub fn bge_small() -> (bands: Self)
        ensures
            bands == Bands::of_bge_small(),
            bands.near_dup == 95 && bands.correction_floor == 75 && bands.cluster == 90,
            bands.abstention == 62,
            bands.ordered(),
    {
        Bands { near_dup: 95, correction_floor: 75, cluster: 90, abstention: 62 }
    }

    /// EmbeddingGemma-300M, measured on the same fixtures. The cluster bar is
    /// unmeasured for Gemma and carries BGE's number.
    pub fn gemma_300m() -> (bands: Self)
        ensures
            bands == Bands::of_gemma_300m(),
            bands.near_dup == 95 && bands.correction_floor == 70 && bands.cluster == 90,
            bands.abstention == 14,
            bands.ordered(),
    {
        Bands { near_dup: 95, correction_floor: 70, cluster: 90, abstention: 14 }
    }
}

/// Whitespace carries no meaning: texts with the same words are one claim,
/// under one hash.
pub proof fn spacing_does_not_matter(a: Seq<char>, b: Seq<char>)
    requires
        words(a) == words(b),
    ensures
        normal_form(a) == normal_form(b),
        hash_of(a) == hash_of(b),
{
}

/// Collapsing whitespace keeps the words, so that collapsing twice changes
/// nothing and a collapsed text has the normal form of the text it came from.
pub proof fn collapsing_is_idempotent(content: Seq<char>)
    ensures
        words(collapsed(content)) == words(content),
        collapsed(collapsed(content)) == collapsed(content),
        normal_form(collapsed(content)) == normal_form(content),
{
    reveal_strlit(" ");
    lemma_words_of_joined(words(content), " "@);
    lemma_all_words_of_words(Seq::empty(), content);
}

/// Each word is a text of one word.
proof fn lemma_all_words_of_words(run: Seq<char>, s: Seq<char>)
    requires
        solid(run),
    ensures
        all_words(words_from(run, s)) == words_from(run, s),
    decreases s.len(),
{
    lemma_words_of_solid(Seq::empty(), run);
    assert(Seq::<char>::empty() + run =~= run);
    assert(all_words(flushed(run)) == flushed(run)) by {
        if run.len() > 0 {
            lemma_all_words_one(run);
        }
    }
    if s.len() > 0 {
        if white(s[0]) {
            lemma_all_words_of_words(Seq::empty(), s.skip(1));
            lemma_all_words_add(flushed(run), words_from(Seq::empty(), s.skip(1)));
        } else {
            lemma_all_words_of_words(run.push(s[0]), s.skip(1));
        }
    }
}

/// A text whose words are in lower case already, in whatever script, has its
/// collapsed form for a normal form, and normalizing that again changes
/// nothing. What the standard library makes of capitals beyond ASCII decides
/// the rest.
pub proof fn a_text_in_lower_case_is_only_collapsed(content: Seq<char>)
    requires
        lowercased(collapsed(content)) == collapsed(content),
    ensures
        normal_form(content) == collapsed(content),
        normal_form(normal_form(content)) == normal_form(content),
{
    collapsing_is_idempotent(content);
}

/// Solid words are the words of what they are joined into.
proof fn lemma_all_words_of_solid(parts: Seq<Seq<char>>)
    requires
        forall|i: int| 0 <= i < parts.len() ==> (#[trigger] parts[i]).len() > 0 && solid(parts[i]),
    ensures
        all_words(parts) == parts,
    decreases parts.len(),
{
    if parts.len() > 0 {
        let rest = parts.skip(1);
        assert forall|i: int| 0 <= i < rest.len() implies (#[trigger] rest[i]).len() > 0 && solid(
            rest[i],
        ) by {
            assert(rest[i] == parts[i + 1]);
        }
        lemma_all_words_of_solid(rest);
        lemma_words_of_solid(Seq::empty(), parts[0]);
        assert(Seq::<char>::empty() + parts[0] =~= parts[0]);
        assert(seq![parts[0]] + rest =~= parts);
    }
}

/// Normalizing twice is normalizing once, and the hash is that of the text it
/// came from, wherever lowercasing turns each word into a word, leaves the
/// spaces between them, and is settled after one application. Whether it is,
/// is for the Unicode tables of the standard library to say.
pub proof fn normalizing_twice_is_normalizing_once(content: Seq<char>, lowered: Seq<Seq<char>>)
    requires
        lowercased(collapsed(content)) == joined(lowered, " "@),
        forall|i: int|
            0 <= i < lowered.len() ==> (#[trigger] lowered[i]).len() > 0 && solid(lowered[i]),
        lowercased(lowercased(collapsed(content))) == lowercased(collapsed(content)),
    ensures
        normal_form(normal_form(content)) == normal_form(content),
        hash_of(normal_form(content)) == hash_of(content),
{
    reveal_strlit(" ");
    lemma_words_of_joined(lowered, " "@);
    lemma_all_words_of_solid(lowered);
}

/// Normalizing an ASCII text folds its letters and its blanks, and doing so
/// twice changes nothing: the folded text has the same words, one space apart,
/// and no letter left to lower.
pub proof fn folding_is_idempotent_on_ascii(content: Seq<char>)
    requires
        ascii(content),
    ensures
        ascii(collapsed(content)),
        ({
            let folded = ascii_lowered(collapsed(content));
            &&& ascii(folded)
            &&& collapsed(folded) == folded
            &&& ascii_lowered(collapsed(folded)) == folded
        }),
{
    reveal_strlit(" ");
    let inner = collapsed(content);
    let folded = ascii_lowered(inner);
    lemma_ascii_words(Seq::empty(), content);
    lemma_ascii_joined(words(content), " "@);
    lowering_is_idempotent(inner);
    collapsing_is_idempotent(content);
    lowering_keeps_the_words(inner);
    assert(ascii_lowered(" "@) =~= " "@);
    lemma_lowered_joined(words(inner), " "@);
}

/// The whole of a claim is hashed: where the digest tells the two texts apart
/// that are hashed, two claims have one hash only if they have the same words
/// up to case, from the first to the last.
pub proof fn claims_that_differ_anywhere_hash_apart(a: Seq<char>, b: Seq<char>)
    requires
        hash_of(a) == hash_of(b),
        blake3_digest(encode_utf8(lowercased(joined(words(a), " "@)))) == blake3_digest(
            encode_utf8(lowercased(joined(words(b), " "@))),
        ) ==> encode_utf8(lowercased(joined(words(a), " "@))) == encode_utf8(
            lowercased(joined(words(b), " "@)),
        ),
    ensures
        lowercased(joined(words(a), " "@)) == lowercased(joined(words(b), " "@)),
{
    let x = lowercased(joined(words(a), " "@));
    let y = lowercased(joined(words(b), " "@));
    hex_is_injective(blake3_digest(encode_utf8(x)), blake3_digest(encode_utf8(y)));
    encode_utf8_decode_utf8(x);
    encode_utf8_decode_utf8(y);
}

/// Nothing but case and spacing is folded: two ASCII texts that fold alike
/// have the same words up to case, and two that have them fold alike.
pub proof fn only_case_and_spacing_are_folded(a: Seq<char>, b: Seq<char>)
    ensures
        ascii_lowered(collapsed(a)) == ascii_lowered(collapsed(b)) <==> words(ascii_lowered(a))
            == words(ascii_lowered(b)),
{
    reveal_strlit(" ");
    collapsing_is_idempotent(a);
    collapsing_is_idempotent(b);
    lowering_keeps_the_words(collapsed(a));
    lowering_keeps_the_words(collapsed(b));
    lowering_keeps_the_words(a);
    lowering_keeps_the_words(b);
    assert(ascii_lowered(" "@) =~= " "@);
    lemma_lowered_joined(words(a), " "@);
    lemma_lowered_joined(words(b), " "@);
    assert(ascii_lowered(collapsed(a)) == joined(all_lowered(words(a)), " "@));
    assert(ascii_lowered(collapsed(b)) == joined(all_lowered(words(b)), " "@));
}

} // verus!
