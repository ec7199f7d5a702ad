//! `agmem doc`: the document tier from the shell.
//!
//! Each verb calls the tool a session would have called (`remember` for `put`,
//! `inspect` for `get` and `list`, `forget` for `forget`) and prints what its
//! answer says. What goes into the call and what is printed is here.

use vstd::prelude::*;

use crate::domain::json::{a_field_is_found_by_its_name, one_line, Json};
use crate::domain::model::{space_name, ulid, EpisodeId, SpaceName};
use crate::server::args::{DocForgetArgs, DocGetArgs, DocListArgs, DocPutArgs};
use crate::server::resources::{document_address, document_uri};
use crate::text::chars::{str_texts, texts};
use crate::text::number::{decimal, decimal_digits, to_decimal};
use crate::text::pad::{pad_end, pad_start, padded_end, padded_start};
use crate::text::search::{
    a_part_of_a_part_occurs, ends_with, occurs, same, starts_with, what_is_put_between_occurs,
};
use crate::text::words::{join_texts, joined};

verus! {

/// A text that may be missing, as a tool takes it.
pub open spec fn optional(text: Option<String>) -> Json {
    match text {
        Some(text) => Json::Text(text),
        None => Json::Null,
    }
}

/// A count that may be missing, as a tool takes it.
pub open spec fn optional_count(count: Option<u64>) -> Json {
    match count {
        Some(count) => Json::Number(Some(count as i128)),
        None => Json::Null,
    }
}

/// Some texts, as a tool takes them.
pub open spec fn listed(value: Json, items: Seq<String>) -> bool {
    value.items() == Some(items.map_values(|text: String| Json::Text(text)))
}

/// The names of an object's fields, in order.
pub open spec fn field_names(value: Json) -> Seq<Seq<char>> {
    match value {
        Json::Object(fields) => fields@.map_values(|field: (String, Json)| field.0@),
        _ => Seq::empty(),
    }
}

/// The value of an object's `i`th field.
pub open spec fn field_at(value: Json, i: int) -> Json {
    match value {
        Json::Object(fields) => fields@[i].1,
        _ => Json::Null,
    }
}

/// A text that may be missing.
fn json_text(text: Option<String>) -> (value: Json)
    ensures
        value == optional(text),
{
    match text {
        Some(text) => Json::Text(text),
        None => Json::Null,
    }
}

/// A count that may be missing.
fn json_count(count: Option<u64>) -> (value: Json)
    ensures
        value == optional_count(count),
{
    match count {
        Some(count) => Json::Number(Some(count as i128)),
        None => Json::Null,
    }
}

/// Some texts.
fn json_texts(items: Vec<String>) -> (value: Json)
    ensures
        listed(value, items@),
{
    let mut values: Vec<Json> = Vec::new();
    let mut i: usize = 0;
    while i < items.len()
        invariant
            i <= items@.len(),
            values@ == items@.map_values(|text: String| Json::Text(text)).take(i as int),
        decreases items@.len() - i,
    {
        values.push(Json::Text(items[i].clone()));
        i += 1;
        assert(values@ =~= items@.map_values(|text: String| Json::Text(text)).take(i as int));
    }
    assert(values@ =~= items@.map_values(|text: String| Json::Text(text)));
    Json::Array(values)
}

/// The fields of an object, in order.
fn json_object(names: &[&str], values: Vec<Json>) -> (value: Json)
    requires
        names@.len() == values@.len(),
    ensures
        field_names(value) == str_texts(names@),
        forall|i: int| 0 <= i < values@.len() ==> #[trigger] field_at(value, i) == values@[i],
{
    let ghost all = values@;
    let mut rest = values;
    let mut fields: Vec<(String, Json)> = Vec::new();
    let mut i: usize = 0;
    while i < names.len()
        invariant
            i <= names@.len(),
            all.len() == names@.len(),
            fields@.len() == i,
            rest@ == all.skip(i as int),
            forall|j: int|
                0 <= j < i ==> (#[trigger] fields@[j]).0@ == names@[j]@ && fields@[j].1 == all[j],
        decreases names@.len() - i,
    {
        let value = rest.remove(0);
        fields.push((names[i].to_owned(), value));
        i += 1;
        assert(rest@ =~= all.skip(i as int));
    }
    let value = Json::Object(fields);
    assert(field_names(value) =~= str_texts(names@));
    value
}

/// What `put` hands to `remember`: the document, and no claims.
pub fn put_arguments(args: DocPutArgs, content: String) -> (arguments: Json)
    ensures
        field_names(arguments) == seq!["space"@, "memories"@, "episode"@],
        field_at(arguments, 0) == optional(args.space),
        listed(field_at(arguments, 1), Seq::empty()),
        field_names(field_at(arguments, 2)) == seq![
            "content"@,
            "title"@,
            "doc_kind"@,
            "tags"@,
            "mime"@,
        ],
        field_at(field_at(arguments, 2), 0) == Json::Text(content),
        field_at(field_at(arguments, 2), 1) == Json::Text(args.title),
        field_at(field_at(arguments, 2), 2) == Json::Text(args.kind),
        listed(field_at(field_at(arguments, 2), 3), args.tags@),
        field_at(field_at(arguments, 2), 4) == optional(args.mime),
{
    let mut episode: Vec<Json> = Vec::new();
    episode.push(Json::Text(content));
    episode.push(Json::Text(args.title));
    episode.push(Json::Text(args.kind));
    episode.push(json_texts(args.tags));
    episode.push(json_text(args.mime));
    let names: [&str; 5] = ["content", "title", "doc_kind", "tags", "mime"];
    let document = json_object(&names, episode);
    assert(str_texts(names@) =~= seq!["content"@, "title"@, "doc_kind"@, "tags"@, "mime"@]);
    let mut values: Vec<Json> = Vec::new();
    values.push(json_text(args.space));
    values.push(json_texts(Vec::new()));
    values.push(document);
    let outer: [&str; 3] = ["space", "memories", "episode"];
    let arguments = json_object(&outer, values);
    assert(str_texts(outer@) =~= seq!["space"@, "memories"@, "episode"@]);
    arguments
}

/// The space a `put` names, beyond this run's own.
pub open spec fn named_space(space: Option<&str>) -> Option<Seq<char>> {
    match space {
        Some(name) => if name@ == "current"@ {
            None
        } else {
            Some(name@)
        },
        None => None,
    }
}

/// The space a `put` landed in: this run's own for `current` or nothing, else
/// the name given.
///
/// # Errors
/// When the name given is not a space name.
pub fn written_space(own: &SpaceName, space: Option<&str>) -> (result: Result<SpaceName, String>)
    ensures
        match (named_space(space), result) {
            (None, Ok(made)) => made@ == own@,
            (Some(name), Ok(made)) => space_name(name) && made@ == name,
            (Some(name), Err(message)) => !space_name(name) && message@ == "`"@ + name
                + "` is not a space name"@,
            (None, Err(_)) => false,
        },
{
    match space {
        None => Ok(own.clone()),
        Some(name) => {
            if same(name, "current") {
                return Ok(own.clone());
            }
            match SpaceName::new(name) {
                Ok(made) => Ok(made),
                Err(_) => Err("`".to_owned().concat(name).concat("` is not a space name")),
            }
        },
    }
}

/// What `put` prints once `remember` has answered: the document's id and its
/// address, on one line.
///
/// # Errors
/// When the answer names no episode, or `space` is not a space name.
pub fn put_answer(answer: &Json, own: &SpaceName, space: Option<&str>) -> (result: Result<
    String,
    String,
>)
    ensures
        match (answer.field_text("episode"@), result) {
            (None, Err(message)) => message@
                == "remember answered without an episode id; agmem versions disagree?"@,
            (None, Ok(_)) => false,
            (Some(id), Ok(line)) => line@ == id + " "@ + document_address(
                named_space(space).unwrap_or(own@),
                id,
            ) + "\n"@ && (named_space(space) matches Some(name) ==> space_name(name)),
            (Some(_), Err(message)) => (named_space(space) matches Some(name) && !space_name(name)
                && message@ == "`"@ + name + "` is not a space name"@),
        },
{
    let id: &str = match answer.get_str("episode") {
        Some(id) => id,
        None => {
            return Err(
                "remember answered without an episode id; agmem versions disagree?".to_owned(),
            );
        },
    };
    match written_space(own, space) {
        Ok(at) => {
            let uri = document_uri(at.as_str(), id);
            Ok(id.to_owned().concat(" ").concat(uri.as_str()).concat("\n"))
        },
        Err(message) => Err(message),
    }
}

/// What `inspect` is asked for a document: an id is tried first, since a title
/// that happens to be one is a title nobody would choose.
pub open spec fn reference_of(reference: Seq<char>, space: Option<Seq<char>>) -> Seq<char> {
    if ulid(reference) {
        "episode:"@ + reference
    } else {
        "doc:"@ + space.unwrap_or("current"@) + "/"@ + reference
    }
}

/// What `inspect` is asked for a document.
pub fn get_reference(reference: &str, space: Option<&str>) -> (asked: String)
    ensures
        asked@ == reference_of(
            reference@,
            match space {
                Some(space) => Some(space@),
                None => None,
            },
        ),
{
    match EpisodeId::new(reference) {
        Ok(_) => "episode:".to_owned().concat(reference),
        Err(_) => {
            let space: &str = match space {
                Some(space) => space,
                None => "current",
            };
            "doc:".to_owned().concat(space).concat("/").concat(reference)
        },
    }
}

/// What `get` hands to `inspect`. `whole` is the longest document there can
/// be: the tool's own window is one chunk, right for an agent that pages and
/// wrong for a shell that asked for the file.
pub fn get_arguments(args: &DocGetArgs, whole: u64) -> (arguments: Json)
    ensures
        field_names(arguments) == seq!["ref"@, "space"@, "offset"@, "limit"@],
        field_at(arguments, 0).text() == Some(
            reference_of(
                args.reference@,
                match args.space {
                    Some(space) => Some(space@),
                    None => None,
                },
            ),
        ),
        field_at(arguments, 1) == optional(args.space),
        field_at(arguments, 2) == optional_count(args.offset),
        field_at(arguments, 3) == Json::Number(
            Some(
                match args.limit {
                    Some(limit) => limit as i128,
                    None => whole as i128,
                },
            ),
        ),
{
    let reference = match &args.space {
        Some(space) => get_reference(args.reference.as_str(), Some(space.as_str())),
        None => get_reference(args.reference.as_str(), None),
    };
    let space = match &args.space {
        Some(space) => Some(space.clone()),
        None => None,
    };
    let limit: u64 = match args.limit {
        Some(limit) => limit,
        None => whole,
    };
    let mut values: Vec<Json> = Vec::new();
    values.push(Json::Text(reference));
    values.push(json_text(space));
    values.push(json_count(args.offset));
    values.push(json_count(Some(limit)));
    let names: [&str; 4] = ["ref", "space", "offset", "limit"];
    let arguments = json_object(&names, values);
    assert(str_texts(names@) =~= seq!["ref"@, "space"@, "offset"@, "limit"@]);
    arguments
}

/// The content in an answer of `inspect`, if it found a document.
pub open spec fn content_in(answer: Json) -> Option<Seq<char>> {
    match answer.field("found"@) {
        Some(found) => match found.field("episode"@) {
            Some(episode) => episode.field_text("content"@),
            None => None,
        },
        None => None,
    }
}

/// What `get --raw` prints: the content alone, as it is stored.
///
/// # Errors
/// When what was found is not a document.
pub fn raw_content(answer: &Json, reference: &str) -> (result: Result<String, String>)
    ensures
        match (content_in(*answer), result) {
            (Some(content), Ok(text)) => text@ == content,
            (None, Err(message)) => message@ == reference@
                + " is not a document; `agmem doc get` without --raw shows what it is"@,
            _ => false,
        },
{
    match answer.get("found") {
        Some(found) => match found.get("episode") {
            Some(episode) => match episode.get_str("content") {
                Some(content) => {
                    return Ok(content.to_owned());
                },
                None => {},
            },
            None => {},
        },
        None => {},
    }
    Err(
        reference.to_owned().concat(
            " is not a document; `agmem doc get` without --raw shows what it is",
        ),
    )
}

/// What `list` hands to `inspect`.
pub fn list_arguments(args: DocListArgs) -> (arguments: Json)
    ensures
        field_names(arguments) == seq!["ref"@, "doc_kinds"@, "tags"@],
        field_at(arguments, 0).text() == Some(
            "docs:"@ + (match args.space {
                Some(space) => space@,
                None => "current"@,
            }),
        ),
        listed(field_at(arguments, 1), args.kinds@),
        listed(field_at(arguments, 2), args.tags@),
{
    let reference = match &args.space {
        Some(space) => "docs:".to_owned().concat(space.as_str()),
        None => "docs:".to_owned().concat("current"),
    };
    let mut values: Vec<Json> = Vec::new();
    values.push(Json::Text(reference));
    values.push(json_texts(args.kinds));
    values.push(json_texts(args.tags));
    let names: [&str; 3] = ["ref", "doc_kinds", "tags"];
    let arguments = json_object(&names, values);
    assert(str_texts(names@) =~= seq!["ref"@, "doc_kinds"@, "tags"@]);
    arguments
}

/// A field of a document as it is listed; a question mark where it is missing.
pub open spec fn shown(document: Json, name: Seq<char>) -> Seq<char> {
    document.field_text(name).unwrap_or("?"@)
}

/// A count of a document; zero where it is missing.
pub open spec fn shown_count(document: Json, name: Seq<char>) -> nat {
    match document.field(name) {
        Some(value) => match value.integer() {
            Some(n) => if 0 <= n <= u64::MAX {
                n as nat
            } else {
                0
            },
            None => 0,
        },
        None => 0,
    }
}

/// One listing line: id, kind, size, citations, date, title. The id comes
/// first, so that cutting a line at its first space gives what `get` and
/// `forget` take.
pub open spec fn listing_line(document: Json) -> Seq<char> {
    shown(document, "id"@) + "  "@ + padded_end(shown(document, "doc_kind"@), 10) + "  "@
        + padded_start(decimal(shown_count(document, "chars"@)), 7) + " chars  cited "@
        + padded_end(decimal(shown_count(document, "cited"@)), 3) + "  "@ + shown(
        document,
        "created_at"@,
    ) + "  "@ + shown(document, "title"@) + "\n"@
}

/// A field of a document as it is listed.
fn show<'a>(document: &'a Json, name: &str) -> (text: &'a str)
    ensures
        text@ == shown(*document, name@),
{
    match document.get_str(name) {
        Some(text) => text,
        None => "?",
    }
}

/// A count of a document.
fn count(document: &Json, name: &str) -> (count: u64)
    ensures
        count == shown_count(*document, name@),
{
    match document.get(name) {
        Some(value) => match value.as_u64() {
            Some(count) => count,
            None => 0,
        },
        None => 0,
    }
}

/// One listing line.
pub fn line(document: &Json) -> (text: String)
    ensures
        text@ == listing_line(*document),
{
    let kind = pad_end(show(document, "doc_kind"), 10);
    let size = to_decimal(count(document, "chars"));
    let size = pad_start(size.as_str(), 7);
    let cited = to_decimal(count(document, "cited"));
    let cited = pad_end(cited.as_str(), 3);
    show(document, "id").to_owned().concat("  ").concat(kind.as_str()).concat("  ").concat(
        size.as_str(),
    ).concat(" chars  cited ").concat(cited.as_str()).concat("  ").concat(
        show(document, "created_at"),
    ).concat("  ").concat(show(document, "title")).concat("\n")
}

/// The documents in an answer of `inspect`.
pub open spec fn documents_in(answer: Json) -> Option<Seq<Json>> {
    match answer.field("found"@) {
        Some(found) => match found.field("documents"@) {
            Some(documents) => documents.items(),
            None => None,
        },
        None => None,
    }
}

/// The lines of some documents, one after the other.
pub open spec fn listing(documents: Seq<Json>) -> Seq<char>
    decreases documents.len(),
{
    if documents.len() == 0 {
        Seq::empty()
    } else {
        listing(documents.drop_last()) + listing_line(documents.last())
    }
}

/// What `list` prints: one line for each document, in the answer's order.
///
/// # Errors
/// When the answer holds no listing.
pub fn list_answer(answer: &Json) -> (result: Result<String, String>)
    ensures
        match (documents_in(*answer), result) {
            (Some(documents), Ok(text)) => text@ == listing(documents),
            (None, Err(message)) => message@
                == "inspect answered without a listing; agmem versions disagree?"@,
            _ => false,
        },
{
    let mut documents: Option<&Vec<Json>> = None;
    match answer.get("found") {
        Some(found) => match found.get("documents") {
            Some(list) => {
                documents = list.as_array();
            },
            None => {},
        },
        None => {},
    }
    match documents {
        Some(documents) => {
            let mut text = String::new();
            let mut i: usize = 0;
            while i < documents.len()
                invariant
                    i <= documents@.len(),
                    text@ == listing(documents@.take(i as int)),
                decreases documents@.len() - i,
            {
                assert(documents@.take(i + 1).drop_last() =~= documents@.take(i as int));
                let line = line(&documents[i]);
                text.append(line.as_str());
                i += 1;
            }
            assert(documents@.take(documents@.len() as int) =~= documents@);
            Ok(text)
        },
        None => Err("inspect answered without a listing; agmem versions disagree?".to_owned()),
    }
}

/// What `forget` hands to `forget`.
pub fn forget_arguments(args: &DocForgetArgs) -> (arguments: Json)
    ensures
        field_names(arguments) == seq!["ids"@, "space"@, "purge"@, "cascade"@],
        field_at(arguments, 0).items() matches Some(ids) && ids.len() == 1 && ids[0].text() == Some(
            "episode:"@ + args.id@,
        ),
        field_at(arguments, 1) == optional(args.space),
        field_at(arguments, 2) == Json::Bool(args.purge),
        field_at(arguments, 3) == Json::Bool(args.cascade),
{
    let mut ids: Vec<Json> = Vec::new();
    ids.push(Json::Text("episode:".to_owned().concat(args.id.as_str())));
    let space = match &args.space {
        Some(space) => Some(space.clone()),
        None => None,
    };
    let mut values: Vec<Json> = Vec::new();
    values.push(Json::Array(ids));
    values.push(json_text(space));
    values.push(Json::Bool(args.purge));
    values.push(Json::Bool(args.cascade));
    let names: [&str; 4] = ["ids", "space", "purge", "cascade"];
    let arguments = json_object(&names, values);
    assert(str_texts(names@) =~= seq!["ids"@, "space"@, "purge"@, "cascade"@]);
    arguments
}

/// The texts among some values.
pub open spec fn texts_among(items: Seq<Json>) -> Seq<Seq<char>>
    decreases items.len(),
{
    if items.len() == 0 {
        Seq::empty()
    } else {
        match items.last().text() {
            Some(text) => texts_among(items.drop_last()).push(text),
            None => texts_among(items.drop_last()),
        }
    }
}

/// The names an answer lists under `key`.
pub open spec fn names_in(answer: Json, key: Seq<char>) -> Seq<Seq<char>> {
    match answer.field(key) {
        Some(value) => match value.items() {
            Some(items) => texts_among(items),
            None => Seq::empty(),
        },
        None => Seq::empty(),
    }
}

/// The names an answer lists under `key`.
fn names(answer: &Json, key: &str) -> (found: Vec<String>)
    ensures
        texts(found@) == names_in(*answer, key@),
{
    let mut found: Vec<String> = Vec::new();
    assert(texts(found@) =~= Seq::<Seq<char>>::empty());
    match answer.get(key) {
        Some(value) => match value.as_array() {
            Some(items) => {
                let mut i: usize = 0;
                while i < items.len()
                    invariant
                        i <= items@.len(),
                        texts(found@) == texts_among(items@.take(i as int)),
                    decreases items@.len() - i,
                {
                    assert(items@.take(i + 1).drop_last() =~= items@.take(i as int));
                    let ghost before = found@;
                    match items[i].as_str() {
                        Some(name) => {
                            found.push(name.to_owned());
                            assert(texts(found@) =~= texts(before).push(name@));
                        },
                        None => {},
                    }
                    i += 1;
                }
                assert(items@.take(items@.len() as int) =~= items@);
            },
            None => {},
        },
        None => {},
    }
    found
}

/// What `forget` prints: what is gone, or what is closed.
pub fn forget_answer(answer: &Json, purge: bool) -> (text: String)
    ensures
        text@ == (if purge {
            let gone = names_in(*answer, "purged"@);
            "purged "@ + decimal(gone.len()) + " record(s), "@ + decimal(
                shown_count(*answer, "chunks_purged"@),
            ) + " chunk(s): "@ + joined(gone, ", "@) + "\n"@
        } else {
            let closed = names_in(*answer, "invalidated"@);
            "forgot "@ + decimal(closed.len()) + " record(s): "@ + joined(closed, ", "@) + "\n"@
        }),
{
    if purge {
        let gone = names(answer, "purged");
        let number = to_decimal(gone.len() as u64);
        let chunks = to_decimal(count(answer, "chunks_purged"));
        let ids = join_texts(gone.as_slice(), ", ");
        assert(texts(gone@).len() == gone@.len());
        "purged ".to_owned().concat(number.as_str()).concat(" record(s), ").concat(
            chunks.as_str(),
        ).concat(" chunk(s): ").concat(ids.as_str()).concat("\n")
    } else {
        let closed = names(answer, "invalidated");
        let number = to_decimal(closed.len() as u64);
        let ids = join_texts(closed.as_slice(), ", ");
        assert(texts(closed@).len() == closed@.len());
        "forgot ".to_owned().concat(number.as_str()).concat(" record(s): ").concat(
            ids.as_str(),
        ).concat("\n")
    }
}

/// A listing can be cut: everything before the first blank of a document's
/// line is what `get` and `forget` take.
pub proof fn a_line_starts_with_the_id(document: Json)
    requires
        document.field_text("id"@) is Some,
    ensures
        listing_line(document).len() > shown(document, "id"@).len(),
        listing_line(document).take(shown(document, "id"@).len() as int)
            == document.field_text("id"@)->0,
        listing_line(document)[shown(document, "id"@).len() as int] == ' ',
{
    reveal_strlit("  ");
    let id = shown(document, "id"@);
    assert(listing_line(document).take(id.len() as int) =~= id);
}

/// How many line feeds a text holds.
pub open spec fn line_feeds(s: Seq<char>) -> nat
    decreases s.len(),
{
    if s.len() == 0 {
        0
    } else {
        line_feeds(s.drop_last()) + if s.last() == '\n' {
            1nat
        } else {
            0
        }
    }
}

proof fn lemma_line_feeds_add(a: Seq<char>, b: Seq<char>)
    ensures
        line_feeds(a + b) == line_feeds(a) + line_feeds(b),
    decreases b.len(),
{
    if b.len() == 0 {
        assert(a + b =~= a);
    } else {
        assert((a + b).drop_last() =~= a + b.drop_last());
        lemma_line_feeds_add(a, b.drop_last());
    }
}

proof fn lemma_one_line(s: Seq<char>)
    requires
        one_line(s),
    ensures
        line_feeds(s) == 0,
    decreases s.len(),
{
    if s.len() > 0 {
        assert forall|i: int| 0 <= i < s.drop_last().len() implies #[trigger] s.drop_last()[i]
            != '\n' by {
            assert(s[i] != '\n');
        }
        lemma_one_line(s.drop_last());
    }
}

/// Every document has its line, in order, whatever it is and however often it
/// is cited: one document more is one line more, at the end.
pub proof fn every_document_has_its_line(documents: Seq<Json>, document: Json)
    ensures
        listing(Seq::empty()) == Seq::<char>::empty(),
        listing(documents.push(document)) == listing(documents) + listing_line(document),
{
    assert(documents.push(document).drop_last() =~= documents);
}

/// Each of the listed documents' lines stands in the listing.
pub proof fn every_line_is_listed(documents: Seq<Json>, i: int)
    requires
        0 <= i < documents.len(),
    ensures
        occurs(listing(documents), listing_line(documents[i])),
    decreases documents.len(),
{
    let rest = listing(documents.drop_last());
    let last = listing_line(documents.last());
    let none = Seq::<char>::empty();
    assert(listing(documents) =~= rest + last + none);
    assert(listing(documents) =~= none + rest + last);
    if i == documents.len() - 1 {
        what_is_put_between_occurs(rest, last, none);
    } else {
        every_line_is_listed(documents.drop_last(), i);
        what_is_put_between_occurs(none, rest, last);
        a_part_of_a_part_occurs(listing(documents), rest, listing_line(documents[i]));
    }
}

/// The document's fields are texts of one line.
pub open spec fn in_one_line(document: Json) -> bool {
    one_line(shown(document, "id"@)) && one_line(shown(document, "doc_kind"@)) && one_line(
        shown(document, "created_at"@),
    ) && one_line(shown(document, "title"@))
}

/// A document whose fields hold no line feed takes exactly one line.
pub proof fn a_document_takes_one_line(document: Json)
    requires
        in_one_line(document),
    ensures
        line_feeds(listing_line(document)) == 1,
        listing_line(document).last() == '\n',
{
    reveal_strlit("  ");
    reveal_strlit(" chars  cited ");
    reveal_strlit("\n");
    assert forall|i: int| 0 <= i < " chars  cited "@.len() implies #[trigger] " chars  cited "@[i]
        != '\n' by {}
    decimal_digits(shown_count(document, "chars"@));
    decimal_digits(shown_count(document, "cited"@));
    let kind = padded_end(shown(document, "doc_kind"@), 10);
    let size = padded_start(decimal(shown_count(document, "chars"@)), 7);
    let cited = padded_end(decimal(shown_count(document, "cited"@)), 3);
    assert(one_line(kind) && one_line(size) && one_line(cited));
    let a = shown(document, "id"@) + "  "@;
    let b = a + kind + "  "@;
    assert(one_line(b));
    let c = b + size + " chars  cited "@;
    assert(one_line(c));
    let d = c + cited + "  "@;
    assert(one_line(d));
    let e = d + shown(document, "created_at"@) + "  "@;
    assert(one_line(e));
    let text = e + shown(document, "title"@);
    assert(one_line(text));
    assert(listing_line(document) == text + "\n"@);
    assert((text + "\n"@).drop_last() =~= text);
    lemma_one_line(text);
}

/// As many documents, as many lines, where their fields hold no line feed.
pub proof fn a_listing_has_a_line_for_each_document(documents: Seq<Json>)
    requires
        forall|i: int| 0 <= i < documents.len() ==> in_one_line(#[trigger] documents[i]),
    ensures
        line_feeds(listing(documents)) == documents.len(),
    decreases documents.len(),
{
    if documents.len() > 0 {
        let rest = documents.drop_last();
        assert forall|i: int| 0 <= i < rest.len() implies in_one_line(#[trigger] rest[i]) by {
            assert(in_one_line(documents[i]));
        }
        a_listing_has_a_line_for_each_document(rest);
        assert(in_one_line(documents[documents.len() - 1]));
        a_document_takes_one_line(documents.last());
        lemma_line_feeds_add(listing(rest), listing_line(documents.last()));
    }
}

/// A line shows what the document says of itself: its kind, its size and how
/// often it is cited, its date, and last its title; a question mark or a zero
/// where it says nothing.
pub proof fn a_line_shows_every_field(document: Json)
    ensures
        occurs(listing_line(document), document.field_text("doc_kind"@).unwrap_or("?"@)),
        occurs(listing_line(document), document.field_text("created_at"@).unwrap_or("?"@)),
        ends_with(
            listing_line(document),
            document.field_text("title"@).unwrap_or("?"@) + "\n"@,
        ),
        forall|n: u64| #[trigger]
            counts(document, "chars"@, n) ==> occurs(
                listing_line(document),
                decimal(n as nat) + " chars  "@,
            ),
        forall|n: u64| #[trigger]
            counts(document, "cited"@, n) ==> occurs(
                listing_line(document),
                "cited "@ + decimal(n as nat),
            ),
{
    let kind = shown(document, "doc_kind"@);
    let size = decimal(shown_count(document, "chars"@));
    let cited = decimal(shown_count(document, "cited"@));
    let wide = padded_end(kind, 10);
    let gap = wide.skip(kind.len() as int);
    assert(wide =~= kind + gap);
    let wide_size = padded_start(size, 7);
    let lead = wide_size.take(wide_size.len() - size.len());
    assert(wide_size =~= lead + size);
    let wide_cited = padded_end(cited, 3);
    let trail = wide_cited.skip(cited.len() as int);
    assert(wide_cited =~= cited + trail);
    lemma_line_parts(
        shown(document, "id"@),
        kind,
        gap,
        lead,
        size,
        cited,
        trail,
        shown(document, "created_at"@),
        shown(document, "title"@),
    );
}

proof fn lemma_line_parts(
    id: Seq<char>,
    kind: Seq<char>,
    gap: Seq<char>,
    lead: Seq<char>,
    size: Seq<char>,
    cited: Seq<char>,
    trail: Seq<char>,
    date: Seq<char>,
    title: Seq<char>,
)
    ensures
        ({
            let whole = id + "  "@ + (kind + gap) + "  "@ + (lead + size) + " chars  cited "@ + (
            cited + trail) + "  "@ + date + "  "@ + title + "\n"@;
            &&& occurs(whole, kind)
            &&& occurs(whole, size + " chars  "@)
            &&& occurs(whole, "cited "@ + cited)
            &&& occurs(whole, date)
            &&& ends_with(whole, title + "\n"@)
        }),
{
    reveal_strlit(" chars  cited ");
    reveal_strlit(" chars  ");
    reveal_strlit("cited ");
    assert(" chars  cited "@ =~= " chars  "@ + "cited "@);
    let whole = id + "  "@ + (kind + gap) + "  "@ + (lead + size) + " chars  cited "@ + (cited
        + trail) + "  "@ + date + "  "@ + title + "\n"@;
    let rest = "  "@ + date + "  "@ + title + "\n"@;
    assert(occurs(whole, kind)) by {
        let before = id + "  "@;
        let after = gap + "  "@ + (lead + size) + " chars  cited "@ + (cited + trail) + rest;
        assert(whole =~= before + kind + after);
        what_is_put_between_occurs(before, kind, after);
    }
    assert(occurs(whole, size + " chars  "@)) by {
        let before = id + "  "@ + (kind + gap) + "  "@ + lead;
        let after = "cited "@ + (cited + trail) + rest;
        assert(whole =~= before + (size + " chars  "@) + after);
        what_is_put_between_occurs(before, size + " chars  "@, after);
    }
    assert(occurs(whole, "cited "@ + cited)) by {
        let before = id + "  "@ + (kind + gap) + "  "@ + (lead + size) + " chars  "@;
        let after = trail + rest;
        assert(whole =~= before + ("cited "@ + cited) + after);
        what_is_put_between_occurs(before, "cited "@ + cited, after);
    }
    assert(occurs(whole, date)) by {
        let before = id + "  "@ + (kind + gap) + "  "@ + (lead + size) + " chars  cited "@ + (cited
            + trail) + "  "@;
        let after = "  "@ + title + "\n"@;
        assert(whole =~= before + date + after);
        what_is_put_between_occurs(before, date, after);
    }
    let end = title + "\n"@;
    assert(whole.subrange(whole.len() - end.len(), whole.len() as int) =~= end);
}

/// The document counts `n` under `name`.
pub open spec fn counts(document: Json, name: Seq<char>, n: u64) -> bool {
    document.field(name) == Some(Json::Number(Some(n as i128)))
}

/// Every name an answer lists is read, in order, and nothing else is: a value
/// that is a text adds itself at the end, any other value adds nothing.
pub proof fn every_listed_name_is_read(items: Seq<Json>, item: Json)
    ensures
        texts_among(Seq::empty()) == Seq::<Seq<char>>::empty(),
        item matches Json::Text(text) ==> texts_among(items.push(item)) == texts_among(items).push(
            text@,
        ),
        !(item is Text) ==> texts_among(items.push(item)) == texts_among(items),
{
    assert(items.push(item).drop_last() =~= items);
}

/// What `get` asks for names the document it was given: by id where that is
/// what it is, else by its title in the space named, or in this run's own.
pub proof fn a_reference_names_the_document(reference: Seq<char>, space: Seq<char>)
    ensures
        ends_with(reference_of(reference, Some(space)), reference),
        starts_with(reference_of(reference, Some(space)), "episode:"@) <==> ulid(reference),
        !ulid(reference) ==> reference_of(reference, Some(space)) == "doc:"@ + space + "/"@
            + reference,
        reference_of(reference, None) == reference_of(reference, Some("current"@)),
{
    reveal_strlit("episode:");
    reveal_strlit("doc:");
    let asked = reference_of(reference, Some(space));
    assert(asked.subrange(asked.len() - reference.len(), asked.len() as int) =~= reference);
    if ulid(reference) {
        assert(asked.subrange(0, 8) =~= "episode:"@);
    } else {
        assert(asked[0] == 'd');
        if starts_with(asked, "episode:"@) {
            assert(asked.subrange(0, 8)[0] == 'e');
        }
    }
}

/// A call's argument reads back by its name: what stands as the `i`th field of
/// an object is the field of that name, where no earlier one has it.
pub proof fn an_argument_reads_back_by_its_name(value: Json, i: int)
    requires
        0 <= i < field_names(value).len(),
        forall|j: int| 0 <= j < i ==> #[trigger] field_names(value)[j] != field_names(value)[i],
    ensures
        value.field(field_names(value)[i]) == Some(field_at(value, i)),
{
    match value {
        Json::Object(fields) => {
            let key = field_names(value)[i];
            assert(fields@[i].0@ == key);
            assert forall|j: int| 0 <= j < i implies (#[trigger] fields@[j]).0@ != key by {
                assert(field_names(value)[j] != key);
            }
            a_field_is_found_by_its_name(fields@, key, i);
        },
        _ => {},
    }
}

/// What is given is handed on as it is, and what is not given as nothing.
pub proof fn what_is_given_is_handed_on(text: String, count: u64, value: Json, items: Seq<String>)
    ensures
        optional(Some(text)).text() == Some(text@),
        optional(None) == Json::Null,
        optional_count(Some(count)).integer() == Some(count as int),
        optional_count(None) == Json::Null,
        listed(value, items) ==> (value.items() matches Some(held) && held.len() == items.len()
            && forall|i: int|
            0 <= i < items.len() ==> (#[trigger] held[i]).text() == Some(items[i]@)),
{
    if listed(value, items) {
        let held = value.items()->0;
        assert forall|i: int| 0 <= i < items.len() implies (#[trigger] held[i]).text() == Some(
            items[i]@,
        ) by {
            assert(held[i] == Json::Text(items[i]));
        }
    }
}

/// A `put` lands in this run's own space unless it names another; naming it
/// `current` is naming none.
pub proof fn only_another_space_is_named(name: &str)
    ensures
        named_space(None) is None,
        name@ == "current"@ ==> named_space(Some(name)) is None,
        name@ != "current"@ ==> named_space(Some(name)) == Some(name@),
{
}

/// What `inspect` found is read where it stands: a document's content under its
/// episode, a listing under its documents, and names under their own key.
pub proof fn an_answer_is_read_where_it_stands(
    answer: Json,
    found: Json,
    inner: Json,
    key: Seq<char>,
    items: Seq<Json>,
)
    ensures
        answer.field("found"@) == Some(found) && found.field("episode"@) == Some(inner)
            ==> content_in(answer) == inner.field_text("content"@),
        answer.field("found"@) == Some(found) && found.field("documents"@) == Some(inner)
            ==> documents_in(answer) == inner.items(),
        answer.field("found"@) is None ==> content_in(answer) is None && documents_in(answer)
            is None,
        answer.field(key) == Some(inner) && inner.items() == Some(items) ==> names_in(answer, key)
            == texts_among(items),
        answer.field(key) is None ==> names_in(answer, key) == Seq::<Seq<char>>::empty(),
{
}

/// A count that is missing, or cannot be one, is shown as zero.
pub proof fn a_missing_count_is_zero(document: Json, name: Seq<char>, n: i128)
    ensures
        document.field(name) is None ==> shown_count(document, name) == 0,
        (document.field(name) matches Some(value) && value.integer() is None) ==> shown_count(
            document,
            name,
        ) == 0,
        document.field(name) == Some(Json::Number(Some(n))) && n < 0 ==> shown_count(document, name)
            == 0,
        document.field(name) == Some(Json::Number(Some(n))) && 0 <= n <= u64::MAX ==> shown_count(
            document,
            name,
        ) == n,
        document.field_text(name) is None ==> shown(document, name) == "?"@,
{
}

} // verus!
