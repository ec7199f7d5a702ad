//! The shapes a hook's payload comes in.

use vstd::prelude::*;
use vstd::slice::slice_subrange;

use crate::domain::json::{parse, parsed, Json};
use crate::text::chars::{str_texts, texts, to_chars, to_text};
use crate::text::search::{occurs_at, stands_at, starts_with};

verus! {

/// `at` is where `__` stands last in a text.
pub open spec fn last_mark(s: Seq<char>, at: int) -> bool {
    occurs_at(s, "__"@, at) && forall|i: int| at < i ==> !occurs_at(s, "__"@, i)
}

/// `(server, tool)` out of an MCP tool name, plugin-scoped or not.
///
/// `mcp__agmem__recall` and `mcp__plugin_agmem_agmem__recall` both name the
/// same tool; a plugin-bundled server gets the longer prefix.
pub fn mcp_parts(tool: &str) -> (parts: Option<(String, String)>)
    ensures
        match parts {
            Some((server, verb)) => starts_with(tool@, "mcp__"@) && exists|at: int|
                #![trigger last_mark(tool@.skip(5), at)]
                last_mark(tool@.skip(5), at) && server@ == tool@.skip(5).take(at) && verb@
                    == tool@.skip(5).skip(at + 2),
            None => !starts_with(tool@, "mcp__"@) || forall|i: int|
                !occurs_at(tool@.skip(5), "__"@, i),
        },
{
    proof {
        reveal_strlit("mcp__");
        reveal_strlit("__");
    }
    let chars = to_chars(tool);
    let scope = to_chars("mcp__");
    if !stands_at(chars.as_slice(), scope.as_slice(), 0) {
        return None;
    }
    let rest = slice_subrange(chars.as_slice(), 5, chars.len());
    assert(rest@ =~= tool@.skip(5));
    let mark = to_chars("__");
    let mut end: usize = rest.len();
    while end >= 2
        invariant
            end <= rest@.len(),
            mark@ == "__"@,
            mark@.len() == 2,
            starts_with(tool@, "mcp__"@),
            rest@ == tool@.skip(5),
            forall|i: int| end - 1 <= i ==> !occurs_at(rest@, "__"@, i),
        decreases end,
    {
        if stands_at(rest, mark.as_slice(), end - 2) {
            let at: usize = end - 2;
            assert(last_mark(rest@, at as int));
            let server = to_text(slice_subrange(rest, 0, at));
            let verb = to_text(slice_subrange(rest, end, rest.len()));
            assert(rest@.subrange(0, at as int) =~= rest@.take(at as int));
            assert(rest@.subrange(end as int, rest@.len() as int) =~= rest@.skip(at + 2));
            return Some((server, verb));
        }
        end -= 1;
    }
    None
}

/// The first block whose text reads as JSON, read.
pub open spec fn first_readable(blocks: Seq<Json>) -> Option<Json>
    decreases blocks.len(),
{
    if blocks.len() == 0 {
        None
    } else {
        match blocks[0].field_text("text"@) {
            Some(text) => match parsed(text) {
                Ok(value) => Some(value),
                Err(_) => first_readable(blocks.skip(1)),
            },
            None => first_readable(blocks.skip(1)),
        }
    }
}

/// What an array of content blocks carries.
pub open spec fn carried(content: Json) -> Option<Json> {
    match content.items() {
        Some(blocks) => first_readable(blocks),
        None => None,
    }
}

/// The tool's structured answer, whatever wrapping the payload gave it: the
/// JSON object itself, the text rendering of it, or the content blocks
/// carrying that text.
pub open spec fn answer_in(response: Json) -> Json {
    match response {
        Json::Object(_) => match response.field("content"@) {
            Some(content) => match carried(content) {
                Some(value) => value,
                None => response,
            },
            None => response,
        },
        Json::Text(text) => match parsed(text@) {
            Ok(value) => value,
            Err(_) => Json::Null,
        },
        Json::Array(_) => match carried(response) {
            Some(value) => value,
            None => Json::Null,
        },
        _ => Json::Null,
    }
}

/// What an array of content blocks carries.
pub fn parse_blocks(content: &Json) -> (value: Option<Json>)
    ensures
        value == carried(*content),
{
    let blocks = match content.as_array() {
        Some(blocks) => blocks,
        None => {
            return None;
        },
    };
    let mut i: usize = 0;
    assert(blocks@.skip(0) =~= blocks@);
    while i < blocks.len()
        invariant
            i <= blocks@.len(),
            carried(*content) == first_readable(blocks@.skip(i as int)),
        decreases blocks@.len() - i,
    {
        assert(blocks@.skip(i as int).skip(1) =~= blocks@.skip(i + 1));
        if let Some(text) = blocks[i].get_str("text") {
            if let Ok(value) = parse(text) {
                return Some(value);
            }
        }
        i += 1;
    }
    None
}

/// The tool's structured answer, where it is not the response itself.
pub fn response_body(response: &Json) -> (body: Option<Json>)
    ensures
        match body {
            Some(body) => answer_in(*response) == body,
            None => answer_in(*response) == *response,
        },
{
    match response {
        Json::Object(_) => match response.get("content") {
            Some(content) => parse_blocks(content),
            None => None,
        },
        Json::Text(text) => match parse(text.as_str()) {
            Ok(value) => Some(value),
            Err(_) => Some(Json::Null),
        },
        Json::Array(_) => match parse_blocks(response) {
            Some(value) => Some(value),
            None => Some(Json::Null),
        },
        _ => Some(Json::Null),
    }
}

/// How an id is found in an item.
#[derive(Debug, Clone, Copy)]
pub enum Pick {
    /// The item is the id.
    Itself,
    /// The id is a field of the item.
    Field(&'static str),
    /// The item is the id, or has it as its `id`.
    ItselfOrId,
}

/// The id in an item.
pub open spec fn picked(item: Json, pick: Pick) -> Option<Seq<char>> {
    match pick {
        Pick::Itself => item.text(),
        Pick::Field(key) => item.field_text(key@),
        Pick::ItselfOrId => match item.text() {
            Some(text) => Some(text),
            None => item.field_text("id"@),
        },
    }
}

/// The ids in some items, in order.
pub open spec fn all_picked(items: Seq<Json>, pick: Pick) -> Seq<Seq<char>>
    decreases items.len(),
{
    if items.len() == 0 {
        Seq::empty()
    } else {
        match picked(items.last(), pick) {
            Some(id) => all_picked(items.drop_last(), pick).push(id),
            None => all_picked(items.drop_last(), pick),
        }
    }
}

/// The ids in an array; nothing where there is none.
pub open spec fn ids_in(value: Option<Json>, pick: Pick) -> Seq<Seq<char>> {
    match value {
        Some(value) => match value.items() {
            Some(items) => all_picked(items, pick),
            None => Seq::empty(),
        },
        None => Seq::empty(),
    }
}

/// The id in an item.
fn pick_one(item: &Json, pick: Pick) -> (id: Option<&str>)
    ensures
        match id {
            Some(id) => picked(*item, pick) == Some(id@),
            None => picked(*item, pick) is None,
        },
{
    match pick {
        Pick::Itself => item.as_str(),
        Pick::Field(key) => item.get_str(key),
        Pick::ItselfOrId => match item.as_str() {
            Some(text) => Some(text),
            None => item.get_str("id"),
        },
    }
}

/// The ids in an array; nothing where there is none.
pub fn pick_ids(value: Option<&Json>, pick: Pick) -> (ids: Vec<String>)
    ensures
        texts(ids@) == ids_in(
            match value {
                Some(value) => Some(*value),
                None => None,
            },
            pick,
        ),
{
    let mut ids: Vec<String> = Vec::new();
    assert(texts(ids@) =~= Seq::empty());
    if let Some(value) = value {
        if let Some(items) = value.as_array() {
            let mut i: usize = 0;
            while i < items.len()
                invariant
                    i <= items@.len(),
                    texts(ids@) == all_picked(items@.take(i as int), pick),
                decreases items@.len() - i,
            {
                let ghost before = texts(ids@);
                assert(items@.take(i + 1).drop_last() =~= items@.take(i as int));
                if let Some(id) = pick_one(&items[i], pick) {
                    ids.push(id.to_owned());
                    assert(texts(ids@) =~= before.push(id@));
                }
                i += 1;
            }
            assert(items@.take(i as int) =~= items@);
        }
    }
    ids
}

/// The value at the end of a path of fields.
pub open spec fn value_at(body: Json, path: Seq<Seq<char>>) -> Option<Json>
    decreases path.len(),
{
    if path.len() == 0 {
        Some(body)
    } else {
        match body.field(path[0]) {
            Some(next) => value_at(next, path.skip(1)),
            None => None,
        }
    }
}

/// The string field `key` of every object in the array at `path`.
pub fn strings_at(body: &Json, path: &[&str], key: &'static str) -> (strings: Vec<String>)
    ensures
        texts(strings@) == ids_in(value_at(*body, str_texts(path@)), Pick::Field(key)),
{
    let mut node = body;
    let mut i: usize = 0;
    let ghost steps = str_texts(path@);
    assert(steps.skip(0) =~= steps);
    while i < path.len()
        invariant
            i <= path@.len(),
            steps == str_texts(path@),
            value_at(*body, steps) == value_at(*node, steps.skip(i as int)),
        decreases path@.len() - i,
    {
        assert(steps.skip(i as int)[0] == path@[i as int]@);
        assert(steps.skip(i as int).skip(1) =~= steps.skip(i + 1));
        match node.get(path[i]) {
            Some(next) => {
                node = next;
            },
            None => {
                let none: Vec<String> = Vec::new();
                assert(texts(none@) =~= Seq::empty());
                return none;
            },
        }
        i += 1;
    }
    pick_ids(Some(node), Pick::Field(key))
}

/// Every item that says an id is read, in order: a text where the items are
/// the ids, the named field where they are objects, and either where both may
/// come. An item that says none adds nothing.
pub proof fn every_id_is_picked(items: Seq<Json>, item: Json, key: &'static str)
    ensures
        forall|pick: Pick| #[trigger] all_picked(Seq::empty(), pick) == Seq::<Seq<char>>::empty(),
        item matches Json::Text(id) ==> all_picked(items.push(item), Pick::Itself) == all_picked(
            items,
            Pick::Itself,
        ).push(id@) && all_picked(items.push(item), Pick::ItselfOrId) == all_picked(
            items,
            Pick::ItselfOrId,
        ).push(id@),
        !(item is Text) ==> all_picked(items.push(item), Pick::Itself) == all_picked(
            items,
            Pick::Itself,
        ),
        item.field_text(key@) matches Some(id) ==> all_picked(items.push(item), Pick::Field(key))
            == all_picked(items, Pick::Field(key)).push(id),
        item.field_text(key@) is None ==> all_picked(items.push(item), Pick::Field(key))
            == all_picked(items, Pick::Field(key)),
        item.field_text("id"@) matches Some(id) ==> all_picked(items.push(item), Pick::ItselfOrId)
            == all_picked(items, Pick::ItselfOrId).push(id),
{
    assert(items.push(item).drop_last() =~= items);
}

/// However an answer is wrapped, it is the same answer: as a text, as an array
/// of content blocks with that text in one, or as an object that carries such
/// an array. An object without content blocks is the answer itself.
pub proof fn every_wrapping_gives_the_same_answer(
    text: Seq<char>,
    value: Json,
    whole: Json,
    blocks: Seq<Json>,
    i: int,
)
    requires
        parsed(text) == Ok::<Json, Seq<char>>(value),
        0 <= i < blocks.len(),
        blocks[i].field_text("text"@) == Some(text),
        forall|j: int|
            0 <= j < i ==> (#[trigger] blocks[j].field_text("text"@) matches Some(other)
                ==> parsed(other) is Err),
    ensures
        whole.text() == Some(text) ==> answer_in(whole) == value,
        whole.items() == Some(blocks) ==> answer_in(whole) == value,
        (whole.field("content"@) matches Some(content) && content.items() == Some(blocks))
            ==> answer_in(whole) == value,
        whole is Object && whole.field("content"@) is None ==> answer_in(whole) == whole,
{
    lemma_first_readable(blocks, i, text, value);
}

proof fn lemma_first_readable(blocks: Seq<Json>, i: int, text: Seq<char>, value: Json)
    requires
        parsed(text) == Ok::<Json, Seq<char>>(value),
        0 <= i < blocks.len(),
        blocks[i].field_text("text"@) == Some(text),
        forall|j: int|
            0 <= j < i ==> (#[trigger] blocks[j].field_text("text"@) matches Some(other)
                ==> parsed(other) is Err),
    ensures
        first_readable(blocks) == Some(value),
    decreases blocks.len(),
{
    if i > 0 {
        let rest = blocks.skip(1);
        assert(blocks[0].field_text("text"@) matches Some(other) ==> parsed(other) is Err);
        assert(rest[i - 1] == blocks[i]);
        assert forall|j: int| 0 <= j < i - 1 implies (#[trigger] rest[j].field_text("text"@)
            matches Some(other) ==> parsed(other) is Err) by {
            assert(rest[j] == blocks[j + 1]);
            assert(blocks[j + 1].field_text("text"@) matches Some(other) ==> parsed(other) is Err);
        }
        lemma_first_readable(rest, i - 1, text, value);
    }
}

/// A path of fields is walked one field at a time.
pub proof fn a_path_is_walked_field_by_field(
    body: Json,
    first: Seq<char>,
    path: Seq<Seq<char>>,
    next: Json,
)
    ensures
        value_at(body, Seq::empty()) == Some(body),
        body.field(first) == Some(next) ==> value_at(body, seq![first] + path) == value_at(
            next,
            path,
        ),
        body.field(first) is None ==> value_at(body, seq![first] + path) is None,
{
    assert((seq![first] + path).skip(1) =~= path);
}

/// An answer that cannot be read is no answer, but for an object, which then
/// answers for itself.
pub proof fn an_unreadable_answer_is_none(whole: Json, text: Seq<char>, blocks: Seq<Json>)
    requires
        parsed(text) is Err,
        forall|j: int|
            0 <= j < blocks.len() ==> (#[trigger] blocks[j].field_text("text"@) matches Some(other)
                ==> parsed(other) is Err),
    ensures
        whole.text() == Some(text) ==> answer_in(whole) == Json::Null,
        whole.items() == Some(blocks) ==> answer_in(whole) == Json::Null,
        (whole.field("content"@) matches Some(content) && content.items() == Some(blocks))
            ==> answer_in(whole) == whole,
        whole is Bool || whole is Number || whole is Null ==> answer_in(whole) == Json::Null,
{
    lemma_none_readable(blocks);
}

proof fn lemma_none_readable(blocks: Seq<Json>)
    requires
        forall|j: int|
            0 <= j < blocks.len() ==> (#[trigger] blocks[j].field_text("text"@) matches Some(other)
                ==> parsed(other) is Err),
    ensures
        first_readable(blocks) is None,
    decreases blocks.len(),
{
    if blocks.len() > 0 {
        let rest = blocks.skip(1);
        assert(blocks[0].field_text("text"@) matches Some(other) ==> parsed(other) is Err);
        assert forall|j: int| 0 <= j < rest.len() implies (#[trigger] rest[j].field_text("text"@)
            matches Some(other) ==> parsed(other) is Err) by {
            assert(rest[j] == blocks[j + 1]);
            assert(blocks[j + 1].field_text("text"@) matches Some(other) ==> parsed(other) is Err);
        }
        lemma_none_readable(rest);
    }
}

} // verus!
