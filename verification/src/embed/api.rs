//! An embedding model behind an HTTP API.
//!
//! Speaks the OpenAI `POST /embeddings` shape, which the hosted providers and
//! the local servers all answer, so one backend covers both. The base URL and
//! the remote model name are configuration; the key is never written anywhere.
//! What is here decides where a request goes, what an answer means, and when
//! to ask again.

use vstd::prelude::*;

use crate::domain::scoring::{rank_order, ranking, ranks_before};
use crate::text::chars::{range_to_string, to_chars, to_text};
use crate::text::number::{decimal, to_decimal};
use crate::text::search::{find_from, occurs_at};
use crate::text::strip::{strip_end, stripped_end};
use crate::text::words::{trim, trimmed};

verus! {

/// The name a failure reports for this backend.
pub const BACKEND: &'static str = "api";

/// Attempts per request. A 429 or a 5xx from a hosted provider is routine and
/// clears in a moment; three tries with a short back-off absorb that without
/// hiding a real outage for long.
pub const ATTEMPTS: u32 = 3;

/// How much of a provider's error is repeated, in characters.
pub const ERROR_CHARS: usize = 300;

/// What a store records for a remote model: the remote name under a prefix
/// that keeps it apart from the local ids, and says where the vectors came
/// from. Two endpoints serving the same model name are taken to be the same
/// space.
pub fn model_id(model: &str) -> (id: String)
    ensures
        id@ == "api:"@ + model@,
{
    "api:".to_owned().concat(model)
}

/// Where requests go: `<base url>/embeddings`, however many slashes the base
/// URL ends in.
pub fn endpoint(base_url: &str) -> (url: String)
    ensures
        url@ == stripped_end(base_url@, '/') + "/embeddings"@,
{
    let chars = to_chars(base_url);
    to_text(strip_end(chars.as_slice(), '/')).concat("/embeddings")
}

/// A character that ends the host of a URL.
pub open spec fn ends_host(c: char) -> bool {
    c == '/' || c == '?' || c == '#'
}

/// The characters up to the first that ends a host.
pub open spec fn host_part(rest: Seq<char>) -> Seq<char>
    decreases rest.len(),
{
    if rest.len() == 0 || ends_host(rest[0]) {
        Seq::empty()
    } else {
        seq![rest[0]] + host_part(rest.skip(1))
    }
}

/// `start` is where the host of the URL starts: behind the first `://`, or at
/// the front where there is none.
pub open spec fn host_starts(url: Seq<char>, start: int) -> bool {
    ||| start == 0 && forall|i: int| !occurs_at(url, "://"@, i)
    ||| start >= 3 && occurs_at(url, "://"@, start - 3) && forall|i: int|
        0 <= i < start - 3 ==> !occurs_at(url, "://"@, i)
}

/// The host of a URL, for the report line: `https://api.openai.com/v1` is
/// served at `api.openai.com`.
pub fn host_of(url: &str) -> (host: String)
    ensures
        exists|start: int|
            #![trigger host_starts(url@, start)]
            0 <= start <= url@.len() && host_starts(url@, start) && host@ == host_part(
                url@.skip(start),
            ),
{
    let chars = to_chars(url);
    let mark = to_chars("://");
    proof {
        reveal_strlit("://");
    }
    let n: usize = chars.len();
    let start: usize = match find_from(chars.as_slice(), mark.as_slice(), 0) {
        Some(i) => {
            assert(i + 3 <= n);
            i + 3
        },
        None => 0,
    };
    assert(host_starts(url@, start as int));
    let mut host = String::new();
    let mut end: usize = start;
    assert(host@ + host_part(url@.skip(start as int)) =~= host_part(url@.skip(start as int)));
    while end < chars.len() && chars[end] != '/' && chars[end] != '?' && chars[end] != '#'
        invariant
            start <= end <= chars@.len(),
            chars@ == url@,
            host@ + host_part(url@.skip(end as int)) == host_part(url@.skip(start as int)),
        decreases chars@.len() - end,
    {
        let ghost rest = url@.skip(end as int);
        assert(rest.skip(1) =~= url@.skip(end + 1));
        assert(host@ + (seq![rest[0]] + host_part(rest.skip(1))) =~= host@.push(rest[0])
            + host_part(rest.skip(1)));
        host.push(chars[end]);
        end += 1;
    }
    assert(host_part(url@.skip(end as int)) =~= Seq::empty());
    assert(host@ + Seq::empty() =~= host@);
    host
}

/// What is repeated of an error body: the provider's words where it has any,
/// else the trimmed body, kept short; and a stand-in for an empty one.
pub open spec fn repeated(body: Seq<char>, words: Option<Seq<char>>) -> Seq<char> {
    let text = match words {
        Some(words) => words,
        None => trimmed(body),
    };
    if text.len() == 0 {
        "no body"@
    } else if text.len() > ERROR_CHARS {
        text.take(ERROR_CHARS as int)
    } else {
        text
    }
}

/// A text that may not be there.
pub open spec fn words_of(text: Option<&str>) -> Option<Seq<char>> {
    match text {
        Some(text) => Some(text@),
        None => None,
    }
}

/// The provider's own words from an error body, else the body itself, kept
/// short. `words` is the message of a body that reads as the record
/// `{"error": {"message": ...}}`, and nothing for any other body.
pub fn error_message(body: &str, words: Option<&str>) -> (text: String)
    ensures
        text@ == repeated(body@, words_of(words)),
{
    let chars = match words {
        Some(words) => to_chars(words),
        None => {
            let all = to_chars(body);
            let kept = to_text(trim(all.as_slice()));
            to_chars(kept.as_str())
        },
    };
    if chars.len() == 0 {
        return "no body".to_owned();
    }
    if chars.len() > ERROR_CHARS {
        let text = range_to_string(chars.as_slice(), 0, ERROR_CHARS);
        assert(chars@.subrange(0, ERROR_CHARS as int) =~= chars@.take(ERROR_CHARS as int));
        return text;
    }
    to_text(chars.as_slice())
}

/// Why one attempt did not produce vectors, and whether another might.
#[derive(Debug)]
pub enum Outcome {
    /// The provider or the network hiccupped; try again.
    Transient(String),
    /// The request is wrong as asked: bad key, unknown model, bad shape.
    Final(String),
}

/// A status that says the request was served.
pub open spec fn served(status: u16) -> bool {
    200 <= status < 300
}

/// A status that may clear by itself.
pub open spec fn may_clear(status: u16) -> bool {
    status == 429 || status >= 500
}

/// Judge the status an endpoint answered with; `words` are the provider's own,
/// where the body holds any.
///
/// # Errors
/// What to say of a status that does not serve the request, and whether to try
/// again.
pub fn judge_status(endpoint: &str, status: u16, body: &str, words: Option<&str>) -> (result:
    Result<(), Outcome>)
    ensures
        match result {
            Ok(_) => served(status),
            Err(outcome) => {
                let message = endpoint@ + " answered "@ + decimal(status as nat) + ": "@ + repeated(
                    body@,
                    words_of(words),
                );
                !served(status) && match outcome {
                    Outcome::Transient(held) => may_clear(status) && held@ == message,
                    Outcome::Final(held) => !may_clear(status) && held@ == message,
                }
            },
        },
{
    if 200 <= status && status < 300 {
        return Ok(());
    }
    let message = endpoint.to_owned().concat(" answered ").concat(
        to_decimal(status as u64).as_str(),
    ).concat(": ").concat(error_message(body, words).as_str());
    if status == 429 || status >= 500 {
        Err(Outcome::Transient(message))
    } else {
        Err(Outcome::Final(message))
    }
}

/// `order` lists every vector once, by ascending index, and of two equal
/// indexes the one that came first.
pub open spec fn input_order(indexes: Seq<usize>, order: Seq<usize>) -> bool {
    ranking(indexes.map_values(|index: usize| -(index as int) as i128), order)
}

/// The order that puts the answered vectors back into input order, whatever
/// order the provider lists them in.
///
/// # Errors
/// When the answer does not hold one vector per input.
pub fn order_answer(endpoint: &str, indexes: &[usize], inputs: usize) -> (result: Result<
    Vec<usize>,
    Outcome,
>)
    ensures
        match result {
            Ok(order) => indexes@.len() == inputs && input_order(indexes@, order@),
            Err(Outcome::Final(message)) => indexes@.len() != inputs && message@ == endpoint@
                + " returned "@ + decimal(indexes@.len()) + " vectors for "@ + decimal(
                inputs as nat,
            ) + " inputs"@,
            Err(Outcome::Transient(_)) => false,
        },
{
    if indexes.len() != inputs {
        return Err(
            Outcome::Final(
                endpoint.to_owned().concat(" returned ").concat(
                    to_decimal(indexes.len() as u64).as_str(),
                ).concat(" vectors for ").concat(to_decimal(inputs as u64).as_str()).concat(
                    " inputs",
                ),
            ),
        );
    }
    let mut keys: Vec<i128> = Vec::new();
    let mut i: usize = 0;
    while i < indexes.len()
        invariant
            i <= indexes@.len(),
            keys@.len() == i,
            forall|j: int| 0 <= j < i ==> #[trigger] keys@[j] == -(indexes@[j] as int),
        decreases indexes@.len() - i,
    {
        keys.push(-(indexes[i] as i128));
        i += 1;
    }
    assert(keys@ =~= indexes@.map_values(|index: usize| -(index as int) as i128));
    Ok(rank_order(keys.as_slice()))
}

/// What to do after an attempt that did not produce vectors.
#[derive(Debug)]
pub enum Retry {
    /// Wait this many milliseconds and try again.
    Again { wait_ms: u64 },
    /// Wait this many milliseconds, then give up and say this.
    GiveUp { wait_ms: u64, message: String },
}

/// What to do after attempt number `attempt` (the first is 1) came to
/// `outcome`: a final refusal ends the request at once, with its own words; a
/// transient one is waited out, a little longer each time, and ends the
/// request once the attempts are spent.
pub fn after_attempt(attempt: u32, outcome: Outcome) -> (next: Retry)
    requires
        1 <= attempt <= ATTEMPTS,
    ensures
        match outcome {
            Outcome::Final(message) => next matches Retry::GiveUp { wait_ms, message: said }
                && wait_ms == 0 && said@ == message@,
            Outcome::Transient(message) => if attempt < ATTEMPTS {
                next matches Retry::Again { wait_ms } && wait_ms == 500 * attempt
            } else {
                next matches Retry::GiveUp { wait_ms, message: said } && wait_ms == 500 * attempt
                    && said@ == "after "@ + decimal(ATTEMPTS as nat) + " attempts: "@ + message@
            },
        },
{
    match outcome {
        Outcome::Final(message) => Retry::GiveUp { wait_ms: 0, message },
        Outcome::Transient(message) => {
            let wait_ms: u64 = 500 * attempt as u64;
            if attempt < ATTEMPTS {
                Retry::Again { wait_ms }
            } else {
                let said = "after ".to_owned().concat(to_decimal(ATTEMPTS as u64).as_str()).concat(
                    " attempts: ",
                ).concat(message.as_str());
                Retry::GiveUp { wait_ms, message: said }
            }
        },
    }
}

/// The width a probe learnt.
///
/// # Errors
/// When the endpoint answered the probe with no vector.
pub fn learn_width(model: &str, endpoint: &str, widths: &[usize]) -> (result: Result<
    usize,
    String,
>)
    ensures
        match result {
            Ok(dim) => widths@.len() > 0 && dim == widths@[0] && dim > 0,
            Err(message) => (widths@.len() == 0 || widths@[0] == 0) && message@ == model@
                + " at "@ + endpoint@ + " answered the probe with no vector"@,
        },
{
    if widths.len() > 0 && widths[0] > 0 {
        Ok(widths[0])
    } else {
        Err(
            model.to_owned().concat(" at ").concat(endpoint).concat(
                " answered the probe with no vector",
            ),
        )
    }
}

/// A host ends at the first slash, question mark or hash, or with the text.
pub proof fn a_host_ends_where_the_path_starts(host: Seq<char>, end: char, rest: Seq<char>)
    requires
        forall|i: int|
            0 <= i < host.len() ==> #[trigger] host[i] != '/' && host[i] != '?' && host[i] != '#',
        end == '/' || end == '?' || end == '#',
    ensures
        host_part(host) == host,
        host_part(host + seq![end] + rest) == host,
    decreases host.len(),
{
    let long = host + seq![end] + rest;
    if host.len() == 0 {
        assert(long[0] == end);
    } else {
        let tail = host.skip(1);
        assert forall|i: int| 0 <= i < tail.len() implies #[trigger] tail[i] != '/' && tail[i]
            != '?' && tail[i] != '#' by {
            assert(tail[i] == host[i + 1]);
        }
        a_host_ends_where_the_path_starts(tail, end, rest);
        assert(long[0] == host[0]);
        assert(long.skip(1) =~= tail + seq![end] + rest);
        assert(seq![host[0]] + tail =~= host);
    }
}

/// The host stands behind the scheme, and a url without one starts with it.
pub proof fn a_host_starts_behind_the_scheme(scheme: Seq<char>, rest: Seq<char>, start: int)
    requires
        forall|i: int| 0 <= i < scheme.len() ==> #[trigger] scheme[i] != ':',
    ensures
        host_starts(scheme + "://"@ + rest, start) <==> start == scheme.len() + 3,
        host_starts(scheme, start) <==> start == 0,
{
    reveal_strlit("://");
    let url = scheme + "://"@ + rest;
    let at = scheme.len() as int;
    assert(url.subrange(at, at + 3) =~= "://"@);
    assert(occurs_at(url, "://"@, at));
    assert forall|i: int| 0 <= i < at implies !occurs_at(url, "://"@, i) by {
        if occurs_at(url, "://"@, i) {
            assert(url.subrange(i, i + 3)[0] == ':');
            assert(scheme[i] == ':');
        }
    }
    assert forall|i: int| !occurs_at(scheme, "://"@, i) by {
        if occurs_at(scheme, "://"@, i) {
            assert(scheme.subrange(i, i + 3)[0] == ':');
            assert(scheme[i] == ':');
        }
    }
    if host_starts(url, start) && start != at + 3 {
        if start > at + 3 {
            assert(!occurs_at(url, "://"@, at));
        }
    }
}

/// What an endpoint says is repeated, cut to a line's length: its own words
/// where it has some, else the body without the whitespace around it.
pub proof fn what_an_endpoint_says_is_repeated(body: Seq<char>, words: Seq<char>)
    ensures
        0 < words.len() <= 300 ==> repeated(body, Some(words)) == words,
        0 < trimmed(body).len() <= 300 ==> repeated(body, None) == trimmed(body),
        words.len() > 300 ==> repeated(body, Some(words)) == words.take(300),
        trimmed(body).len() > 300 ==> repeated(body, None) == trimmed(body).take(300),
        words.len() == 0 ==> repeated(body, Some(words)) == "no body"@,
        trimmed(body).len() == 0 ==> repeated(body, None) == "no body"@,
{
}

/// An answer is taken in the two hundreds; a full queue and a failing server
/// are tried again, and nothing else is.
pub proof fn a_status_is_judged_by_its_hundred(status: u16)
    ensures
        served(status) <==> status / 100 == 2,
        may_clear(status) <==> status == 429 || status >= 500,
        !(served(status) && may_clear(status)),
{
}

/// The vectors are put in the order of the inputs: the answer's lowest index
/// comes first, and every vector has its place.
pub proof fn vectors_follow_their_inputs(indexes: Seq<usize>, order: Seq<usize>, i: int, j: int)
    requires
        input_order(indexes, order),
        0 <= i < j < order.len(),
    ensures
        order.len() == indexes.len(),
        indexes[order[i] as int] <= indexes[order[j] as int],
        order[i] != order[j],
        indexes[order[i] as int] == indexes[order[j] as int] ==> order[i] < order[j],
{
    let keys = indexes.map_values(|index: usize| -(index as int) as i128);
    assert(ranking(keys, order));
    assert(order[i] < keys.len() && order[j] < keys.len());
    assert(ranks_before(keys, order[i] as int, order[j] as int));
    assert(keys[order[i] as int] == -(indexes[order[i] as int] as int));
    assert(keys[order[j] as int] == -(indexes[order[j] as int] as int));
}

} // verus!
