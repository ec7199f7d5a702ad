//! What goes over a socket, into a log or out of a hook: one line of JSON each.
//!
//! A description is several paragraphs and a handshake is one line. JSON
//! escapes the breaks, so the two are compatible.

use vstd::prelude::*;

use crate::domain::json::{json_quoted, one_line, quote};
use crate::server::args::HookEvent;
use crate::server::daemon::{Ack, Handshake};
use crate::server::hook::events::{event_name, event_word, NewEntry};
use crate::server::tools::ToolDescriptions;
use crate::text::chars::texts;
use crate::text::number::{decimal, decimal_digits, to_decimal};
use crate::text::search::{
    a_part_of_a_part_occurs, a_sum_starts_and_ends_with_its_parts, ends_with, occurs, starts_with,
    what_is_put_between_occurs,
};
use crate::text::words::{every_joined_text_occurs, join_texts, joined};

verus! {

/// A truth value as it is written.
pub open spec fn flag(value: bool) -> Seq<char> {
    if value {
        "true"@
    } else {
        "false"@
    }
}

/// A truth value as it is written.
fn write_flag(value: bool) -> (text: &'static str)
    ensures
        text@ == flag(value),
        one_line(text@),
{
    proof {
        reveal_strlit("true");
        reveal_strlit("false");
    }
    if value {
        "true"
    } else {
        "false"
    }
}

/// The answer to a handshake, as it is written.
pub open spec fn ack_text(ack: Ack) -> Seq<char> {
    "{\"ok\":"@ + flag(ack.ok) + (match ack.error {
        Some(error) => ",\"error\":"@ + json_quoted(error@),
        None => Seq::empty(),
    }) + ",\"retiring\":"@ + flag(ack.retiring) + "}"@
}

/// The answer to a handshake, as one line. A refusal carries its reason.
pub fn ack_line(ack: &Ack) -> (line: String)
    ensures
        line@ == ack_text(*ack),
        one_line(line@),
{
    proof {
        reveal_strlit("{\"ok\":");
        reveal_strlit(",\"error\":");
        reveal_strlit(",\"retiring\":");
        reveal_strlit("}");
    }
    let mut line = "{\"ok\":".to_owned().concat(write_flag(ack.ok));
    match &ack.error {
        Some(error) => {
            let quoted = quote(error.as_str());
            line = line.concat(",\"error\":").concat(quoted.as_str());
            assert(line@ =~= "{\"ok\":"@ + flag(ack.ok) + (",\"error\":"@ + json_quoted(error@)));
        },
        None => {
            assert(line@ =~= "{\"ok\":"@ + flag(ack.ok) + Seq::<char>::empty());
        },
    }
    line.concat(",\"retiring\":").concat(write_flag(ack.retiring)).concat("}")
}

/// One field of an object of texts.
pub open spec fn member(name: Seq<char>, text: Seq<char>) -> Seq<char> {
    json_quoted(name) + ":"@ + json_quoted(text)
}

/// The overrides, as they are written.
pub open spec fn overrides_text(overrides: ToolDescriptions) -> Seq<char> {
    "{"@ + joined(
        overrides.in_order().map_values(|tool: Seq<char>| member(tool, overrides@[tool])),
        ","@,
    ) + "}"@
}

proof fn lemma_joined_one_line(parts: Seq<Seq<char>>, separator: Seq<char>)
    requires
        forall|i: int| 0 <= i < parts.len() ==> one_line(#[trigger] parts[i]),
        one_line(separator),
    ensures
        one_line(joined(parts, separator)),
    decreases parts.len(),
{
    if parts.len() == 1 {
        assert(one_line(parts[0]));
    } else if parts.len() > 1 {
        assert forall|i: int| 0 <= i < parts.skip(1).len() implies one_line(
            #[trigger] parts.skip(1)[i],
        ) by {
            assert(one_line(parts[i + 1]));
        }
        lemma_joined_one_line(parts.skip(1), separator);
        assert(one_line(parts[0]));
    }
}

/// The overrides, as one line: the reworded tools in name order, each with its
/// whole description.
pub fn overrides_line(overrides: &ToolDescriptions) -> (line: String)
    ensures
        line@ == overrides_text(*overrides),
        one_line(line@),
{
    let tools = overrides.tools();
    let ghost written = overrides.in_order().map_values(
        |tool: Seq<char>| member(tool, overrides@[tool]),
    );
    let mut parts: Vec<String> = Vec::new();
    let mut i: usize = 0;
    proof {
        reveal_strlit(":");
        reveal_strlit(",");
        reveal_strlit("{");
        reveal_strlit("}");
    }
    assert forall|j: int| 0 <= j < tools@.len() implies overrides.in_order()[j]
        == #[trigger] tools@[j]@ by {}
    while i < tools.len()
        invariant
            i <= tools@.len(),
            written == overrides.in_order().map_values(
                |tool: Seq<char>| member(tool, overrides@[tool]),
            ),
            written.len() == tools@.len(),
            forall|j: int| 0 <= j < tools@.len() ==> overrides.in_order()[j] == #[trigger] tools@[j]@,
            forall|j: int| 0 <= j < tools@.len() ==> overrides@.contains_key(#[trigger] tools@[j]@),
            one_line(":"@),
            texts(parts@) == written.take(i as int),
            forall|j: int| 0 <= j < i ==> one_line(#[trigger] written[j]),
        decreases tools@.len() - i,
    {
        let tool = tools[i];
        let description: &str = match overrides.get(tool) {
            Some(text) => text,
            None => "",
        };
        let name = quote(tool);
        let text = quote(description);
        let part = name.concat(":").concat(text.as_str());
        let ghost before = texts(parts@);
        assert(part@ == written[i as int]);
        parts.push(part);
        i += 1;
        assert(texts(parts@) =~= before.push(written[i - 1]));
        assert(texts(parts@) =~= written.take(i as int));
    }
    assert(texts(parts@) =~= written);
    proof {
        lemma_joined_one_line(written, ","@);
    }
    let list = join_texts(parts.as_slice(), ",");
    "{".to_owned().concat(list.as_str()).concat("}")
}

/// A handshake, as it is written.
pub open spec fn handshake_text(handshake: Handshake) -> Seq<char> {
    "{\"version\":"@ + decimal(handshake.version as nat) + ",\"release\":"@ + json_quoted(
        handshake.release@,
    ) + ",\"db_url\":"@ + json_quoted(handshake.db_url@) + ",\"embedder\":"@ + json_quoted(
        handshake.embedder.spelling(),
    ) + ",\"space\":"@ + json_quoted(handshake.space@) + ",\"pool\":"@ + decimal(
        handshake.pool as nat,
    ) + ",\"max_k\":"@ + decimal(handshake.max_k as nat) + ",\"tool_desc\":"@ + overrides_text(
        handshake.tool_desc,
    ) + "}"@
}

/// A number, as it is written.
fn write_number(n: u64) -> (text: String)
    ensures
        text@ == decimal(n as nat),
        one_line(text@),
{
    proof {
        decimal_digits(n as nat);
    }
    to_decimal(n)
}

/// A handshake, as one line.
pub fn handshake_line(handshake: &Handshake) -> (line: String)
    ensures
        line@ == handshake_text(*handshake),
        one_line(line@),
{
    proof {
        reveal_strlit("{\"version\":");
        reveal_strlit(",\"release\":");
        reveal_strlit(",\"db_url\":");
        reveal_strlit(",\"embedder\":");
        reveal_strlit(",\"space\":");
        reveal_strlit(",\"pool\":");
        reveal_strlit(",\"max_k\":");
        reveal_strlit(",\"tool_desc\":");
        reveal_strlit("}");
    }
    let version = write_number(handshake.version as u64);
    let release = quote(handshake.release.as_str());
    let db_url = quote(handshake.db_url.as_str());
    let embedder = quote(handshake.embedder.as_str());
    let space = quote(handshake.space.as_str());
    let pool = write_number(handshake.pool as u64);
    let max_k = write_number(handshake.max_k as u64);
    let tool_desc = overrides_line(&handshake.tool_desc);
    let line = "{\"version\":".to_owned().concat(version.as_str()).concat(",\"release\":").concat(
        release.as_str(),
    );
    assert(one_line(line@));
    let line = line.concat(",\"db_url\":").concat(db_url.as_str());
    assert(one_line(line@));
    let line = line.concat(",\"embedder\":").concat(embedder.as_str());
    assert(one_line(line@));
    let line = line.concat(",\"space\":").concat(space.as_str());
    assert(one_line(line@));
    let line = line.concat(",\"pool\":").concat(pool.as_str());
    assert(one_line(line@));
    let line = line.concat(",\"max_k\":").concat(max_k.as_str());
    assert(one_line(line@));
    line.concat(",\"tool_desc\":").concat(tool_desc.as_str()).concat("}")
}

/// The reply of a hook, as it is written.
pub open spec fn reply_text(event: HookEvent, text: Seq<char>) -> Seq<char> {
    "{\"hookSpecificOutput\":{\"additionalContext\":"@ + json_quoted(text)
        + ",\"hookEventName\":\""@ + event_word(event) + "\"}}"@
}

/// The reply of a hook that has `text` to say, as one line.
pub fn reply_line(event: HookEvent, text: &str) -> (line: String)
    ensures
        line@ == reply_text(event, text@),
        one_line(line@),
{
    proof {
        reveal_strlit("{\"hookSpecificOutput\":{\"additionalContext\":");
        reveal_strlit(",\"hookEventName\":\"");
        reveal_strlit("\"}}");
        reveal_strlit("SessionStart");
        reveal_strlit("PostToolUse");
        reveal_strlit("Stop");
    }
    let said = quote(text);
    let name = event_name(event);
    assert(one_line(name@));
    "{\"hookSpecificOutput\":{\"additionalContext\":".to_owned().concat(said.as_str()).concat(
        ",\"hookEventName\":\"",
    ).concat(name).concat("\"}}")
}

/// A list of texts, as it is written; nothing for an empty one.
pub open spec fn list_text(name: Seq<char>, items: Seq<Seq<char>>) -> Seq<char> {
    if items.len() == 0 {
        Seq::empty()
    } else {
        ",\""@ + name + "\":["@ + joined(
            items.map_values(|item: Seq<char>| json_quoted(item)),
            ","@,
        ) + "]"@
    }
}

/// A list of texts as a field; nothing for an empty one.
fn list_field(name: &str, items: &[String]) -> (text: String)
    requires
        one_line(name@),
    ensures
        text@ == list_text(name@, texts(items@)),
        one_line(text@),
{
    proof {
        reveal_strlit(",\"");
        reveal_strlit("\":[");
        reveal_strlit("]");
        reveal_strlit(",");
    }
    assert(texts(items@).len() == items@.len());
    if items.len() == 0 {
        return String::new();
    }
    let ghost written = texts(items@).map_values(|item: Seq<char>| json_quoted(item));
    let mut parts: Vec<String> = Vec::new();
    let mut i: usize = 0;
    while i < items.len()
        invariant
            i <= items@.len(),
            written == texts(items@).map_values(|item: Seq<char>| json_quoted(item)),
            texts(parts@) == written.take(i as int),
            forall|j: int| 0 <= j < i ==> one_line(#[trigger] written[j]),
        decreases items@.len() - i,
    {
        let part = quote(items[i].as_str());
        let ghost before = texts(parts@);
        assert(part@ == written[i as int]);
        parts.push(part);
        i += 1;
        assert(texts(parts@) =~= before.push(written[i - 1]));
        assert(texts(parts@) =~= written.take(i as int));
    }
    assert(texts(parts@) =~= written);
    proof {
        lemma_joined_one_line(written, ","@);
    }
    let list = join_texts(parts.as_slice(), ",");
    ",\"".to_owned().concat(name).concat("\":[").concat(list.as_str()).concat("]")
}

/// A line of the session log, as it is written.
pub open spec fn entry_text(at: Seq<char>, entry: NewEntry) -> Seq<char> {
    "{\"at\":"@ + json_quoted(at) + ",\"kind\":"@ + json_quoted(entry.kind@) + ",\"name\":"@
        + json_quoted(entry.name@) + list_text("ids"@, texts(entry.ids@)) + list_text(
        "cites"@,
        texts(entry.cites@),
    ) + "}"@
}

/// A line of the session log, of something that happened at `at`.
pub fn entry_line(at: &str, entry: &NewEntry) -> (line: String)
    ensures
        line@ == entry_text(at@, *entry),
        one_line(line@),
{
    proof {
        reveal_strlit("{\"at\":");
        reveal_strlit(",\"kind\":");
        reveal_strlit(",\"name\":");
        reveal_strlit("ids");
        reveal_strlit("cites");
        reveal_strlit("}");
    }
    let when = quote(at);
    let kind = quote(entry.kind);
    let name = quote(entry.name);
    let ids = list_field("ids", entry.ids.as_slice());
    let cites = list_field("cites", entry.cites.as_slice());
    let line = "{\"at\":".to_owned().concat(when.as_str()).concat(",\"kind\":").concat(
        kind.as_str(),
    );
    assert(one_line(line@));
    let line = line.concat(",\"name\":").concat(name.as_str());
    assert(one_line(line@));
    line.concat(ids.as_str()).concat(cites.as_str()).concat("}")
}

/// A field with this name and this value stands in the line.
pub open spec fn says(line: Seq<char>, name: Seq<char>, value: Seq<char>) -> bool {
    occurs(line, "\""@ + name + "\":"@ + value)
}

proof fn lemma_says(
    before: Seq<char>,
    lead: Seq<char>,
    name: Seq<char>,
    value: Seq<char>,
    after: Seq<char>,
)
    requires
        ends_with(lead, "\""@ + name + "\":"@),
    ensures
        says(before + lead + value + after, name, value),
{
    let mark = "\""@ + name + "\":"@;
    let at = lead.len() - mark.len();
    let start = lead.take(at);
    assert(lead =~= start + mark) by {
        assert(lead.subrange(at, lead.len() as int) == mark);
        assert(lead =~= start + lead.subrange(at, lead.len() as int));
    }
    let whole = before + lead + value + after;
    assert(whole =~= (before + start) + (mark + value) + after);
    what_is_put_between_occurs(before + start, mark + value, after);
}

proof fn lemma_mark(lead: Seq<char>, name: Seq<char>, n: int)
    requires
        0 <= n <= lead.len(),
        lead.skip(n) == "\""@ + name + "\":"@,
    ensures
        ends_with(lead, "\""@ + name + "\":"@),
{
    assert(lead.subrange(n, lead.len() as int) =~= lead.skip(n));
}

/// An answer to a handshake says whether it was taken, whether the daemon
/// retires, and the error where there is one.
pub proof fn an_answer_says_everything(ack: Ack)
    ensures
        says(ack_text(ack), "ok"@, flag(ack.ok)),
        says(ack_text(ack), "retiring"@, flag(ack.retiring)),
        ack.error matches Some(error) ==> says(ack_text(ack), "error"@, json_quoted(error@)),
        flag(true) == "true"@ && flag(false) == "false"@,
{
    let none = Seq::<char>::empty();
    reveal_strlit("\"");
    reveal_strlit("\":");
    reveal_strlit("ok");
    reveal_strlit("error");
    reveal_strlit("retiring");
    reveal_strlit("{\"ok\":");
    reveal_strlit(",\"error\":");
    reveal_strlit(",\"retiring\":");
    assert("{\"ok\":"@.skip(1) =~= "\""@ + "ok"@ + "\":"@);
    lemma_mark("{\"ok\":"@, "ok"@, 1);
    assert(",\"error\":"@.skip(1) =~= "\""@ + "error"@ + "\":"@);
    lemma_mark(",\"error\":"@, "error"@, 1);
    assert(",\"retiring\":"@.skip(1) =~= "\""@ + "retiring"@ + "\":"@);
    lemma_mark(",\"retiring\":"@, "retiring"@, 1);
    let whole = ack_text(ack);
    let ok = flag(ack.ok);
    let retiring = flag(ack.retiring);
    let error = match ack.error {
        Some(error) => ",\"error\":"@ + json_quoted(error@),
        None => none,
    };
    lemma_ack_parts(ok, error, retiring);
    if let Some(text) = ack.error {
        let before = "{\"ok\":"@ + ok;
        let after = ",\"retiring\":"@ + retiring + "}"@;
        lemma_says(before, ",\"error\":"@, "error"@, json_quoted(text@), after);
        assert(whole =~= before + ",\"error\":"@ + json_quoted(text@) + after);
    }
}

proof fn lemma_ack_parts(ok: Seq<char>, error: Seq<char>, retiring: Seq<char>)
    requires
        ends_with("{\"ok\":"@, "\""@ + "ok"@ + "\":"@),
        ends_with(",\"retiring\":"@, "\""@ + "retiring"@ + "\":"@),
    ensures
        says("{\"ok\":"@ + ok + error + ",\"retiring\":"@ + retiring + "}"@, "ok"@, ok),
        says("{\"ok\":"@ + ok + error + ",\"retiring\":"@ + retiring + "}"@, "retiring"@, retiring),
{
    let none = Seq::<char>::empty();
    let whole = "{\"ok\":"@ + ok + error + ",\"retiring\":"@ + retiring + "}"@;
    let after = error + ",\"retiring\":"@ + retiring + "}"@;
    lemma_says(none, "{\"ok\":"@, "ok"@, ok, after);
    assert(whole =~= none + "{\"ok\":"@ + ok + after);
    lemma_says("{\"ok\":"@ + ok + error, ",\"retiring\":"@, "retiring"@, retiring, "}"@);
}

/// A hook's answer carries its text, in JSON's quotes, and names its event.
pub proof fn a_reply_carries_its_text(event: HookEvent, text: Seq<char>)
    ensures
        occurs(reply_text(event, text), "\"additionalContext\":"@ + json_quoted(text)),
        occurs(reply_text(event, text), "\"hookEventName\":\""@ + event_word(event) + "\""@),
{
    let quoted = json_quoted(text);
    let word = event_word(event);
    lemma_reply_parts(quoted, word);
}

proof fn lemma_reply_parts(quoted: Seq<char>, word: Seq<char>)
    ensures
        ({
            let whole = "{\"hookSpecificOutput\":{\"additionalContext\":"@ + quoted
                + ",\"hookEventName\":\""@ + word + "\"}}"@;
            &&& occurs(whole, "\"additionalContext\":"@ + quoted)
            &&& occurs(whole, "\"hookEventName\":\""@ + word + "\""@)
        }),
{
    let whole = "{\"hookSpecificOutput\":{\"additionalContext\":"@ + quoted
        + ",\"hookEventName\":\""@ + word + "\"}}"@;
    let lead = "{\"hookSpecificOutput\":{"@;
    assert("{\"hookSpecificOutput\":{\"additionalContext\":"@ =~= lead + "\"additionalContext\":"@)
        by {
        reveal_strlit("{\"hookSpecificOutput\":{\"additionalContext\":");
        reveal_strlit("{\"hookSpecificOutput\":{");
        reveal_strlit("\"additionalContext\":");
    }
    assert(",\"hookEventName\":\""@ =~= ","@ + "\"hookEventName\":\""@) by {
        reveal_strlit(",\"hookEventName\":\"");
        reveal_strlit(",");
        reveal_strlit("\"hookEventName\":\"");
    }
    assert("\"}}"@ =~= "\""@ + "}}"@) by {
        reveal_strlit("\"}}");
        reveal_strlit("\"");
        reveal_strlit("}}");
    }
    let event = "\"hookEventName\":\""@ + word + "\""@;
    let first = "\"additionalContext\":"@ + quoted;
    assert(whole =~= lead + first + (","@ + event + "}}"@));
    what_is_put_between_occurs(lead, first, ","@ + event + "}}"@);
    let before = lead + first + ","@;
    assert(whole =~= before + event + "}}"@);
    what_is_put_between_occurs(before, event, "}}"@);
}

/// Every item of a list stands in its field, in JSON's quotes, and a list
/// without items leaves no field.
pub proof fn a_list_field_holds_every_item(name: Seq<char>, items: Seq<Seq<char>>, i: int)
    ensures
        items.len() == 0 ==> list_text(name, items) == Seq::<char>::empty(),
        0 <= i < items.len() ==> occurs(list_text(name, items), json_quoted(items[i])),
        items.len() > 0 ==> starts_with(list_text(name, items), ",\""@ + name + "\":["@),
{
    if items.len() > 0 {
        let parts = items.map_values(|item: Seq<char>| json_quoted(item));
        let list = joined(parts, ","@);
        let lead = ",\""@ + name + "\":["@;
        let whole = list_text(name, items);
        what_is_put_between_occurs(lead, list, "]"@);
        assert(whole.subrange(0, lead.len() as int) =~= lead);
        if 0 <= i < items.len() {
            every_joined_text_occurs(parts, ","@, i);
            assert(parts[i] == json_quoted(items[i]));
            a_part_of_a_part_occurs(whole, list, parts[i]);
        }
    }
}

/// A log line holds when it happened, its kind and name, and every id and
/// every citation.
pub proof fn a_log_line_holds_the_entry(at: Seq<char>, entry: NewEntry, i: int)
    ensures
        starts_with(entry_text(at, entry), "{\"at\":"@ + json_quoted(at)),
        occurs(entry_text(at, entry), ",\"kind\":"@ + json_quoted(entry.kind@)),
        occurs(entry_text(at, entry), ",\"name\":"@ + json_quoted(entry.name@)),
        0 <= i < entry.ids@.len() ==> occurs(entry_text(at, entry), json_quoted(entry.ids@[i]@)),
        0 <= i < entry.cites@.len() ==> occurs(
            entry_text(at, entry),
            json_quoted(entry.cites@[i]@),
        ),
{
    let ids = list_text("ids"@, texts(entry.ids@));
    let cites = list_text("cites"@, texts(entry.cites@));
    let whole = entry_text(at, entry);
    lemma_entry_parts(json_quoted(at), json_quoted(entry.kind@), json_quoted(entry.name@), ids, cites);
    a_list_field_holds_every_item("ids"@, texts(entry.ids@), i);
    a_list_field_holds_every_item("cites"@, texts(entry.cites@), i);
    if 0 <= i < entry.ids@.len() {
        assert(texts(entry.ids@)[i] == entry.ids@[i]@);
        a_part_of_a_part_occurs(whole, ids, json_quoted(entry.ids@[i]@));
    }
    if 0 <= i < entry.cites@.len() {
        assert(texts(entry.cites@)[i] == entry.cites@[i]@);
        a_part_of_a_part_occurs(whole, cites, json_quoted(entry.cites@[i]@));
    }
}

proof fn lemma_entry_parts(
    at: Seq<char>,
    kind: Seq<char>,
    name: Seq<char>,
    ids: Seq<char>,
    cites: Seq<char>,
)
    ensures
        ({
            let whole = "{\"at\":"@ + at + ",\"kind\":"@ + kind + ",\"name\":"@ + name + ids + cites
                + "}"@;
            &&& starts_with(whole, "{\"at\":"@ + at)
            &&& occurs(whole, ",\"kind\":"@ + kind)
            &&& occurs(whole, ",\"name\":"@ + name)
            &&& occurs(whole, ids)
            &&& occurs(whole, cites)
        }),
{
    let a = "{\"at\":"@ + at;
    let b = a + ",\"kind\":"@ + kind;
    let c = b + ",\"name\":"@ + name;
    let d = c + ids;
    let whole = d + cites + "}"@;
    what_is_put_between_occurs(d, cites, "}"@);
    lemma_occurs_further(c, ids, cites + "}"@, whole);
    lemma_grows(b, ",\"name\":"@, name);
    lemma_grows(a, ",\"kind\":"@, kind);
    lemma_grows(c, ids, cites + "}"@);
    assert(whole =~= c + ids + (cites + "}"@));
    a_part_of_a_part_occurs(whole, c, ",\"name\":"@ + name);
    a_part_of_a_part_occurs(whole, c, b);
    a_part_of_a_part_occurs(whole, b, ",\"kind\":"@ + kind);
    assert(whole.subrange(0, a.len() as int) =~= a);
}

proof fn lemma_occurs_further(
    before: Seq<char>,
    part: Seq<char>,
    after: Seq<char>,
    whole: Seq<char>,
)
    requires
        whole =~= before + part + after,
    ensures
        occurs(whole, part),
{
    what_is_put_between_occurs(before, part, after);
}

/// A handshake says who asks: release, store, embedder and space, in JSON's
/// quotes, and every override.
pub proof fn a_handshake_says_who_asks(handshake: Handshake)
    ensures
        occurs(handshake_text(handshake), ",\"release\":"@ + json_quoted(handshake.release@)),
        occurs(handshake_text(handshake), ",\"db_url\":"@ + json_quoted(handshake.db_url@)),
        occurs(
            handshake_text(handshake),
            ",\"embedder\":"@ + json_quoted(handshake.embedder.spelling()),
        ),
        occurs(handshake_text(handshake), ",\"space\":"@ + json_quoted(handshake.space@)),
        occurs(
            handshake_text(handshake),
            ",\"tool_desc\":"@ + overrides_text(handshake.tool_desc),
        ),
        occurs(handshake_text(handshake), "{\"version\":"@ + decimal(handshake.version as nat)),
        occurs(
            handshake_text(handshake),
            ",\"pool\":"@ + decimal(handshake.pool as nat) + ",\"max_k\":"@ + decimal(
                handshake.max_k as nat,
            ),
        ),
{
    lemma_handshake_parts(
        decimal(handshake.version as nat),
        json_quoted(handshake.release@),
        json_quoted(handshake.db_url@),
        json_quoted(handshake.embedder.spelling()),
        json_quoted(handshake.space@),
        decimal(handshake.pool as nat),
        decimal(handshake.max_k as nat),
        overrides_text(handshake.tool_desc),
    );
}

proof fn lemma_handshake_parts(
    version: Seq<char>,
    release: Seq<char>,
    db: Seq<char>,
    embedder: Seq<char>,
    space: Seq<char>,
    pool: Seq<char>,
    max_k: Seq<char>,
    overrides: Seq<char>,
)
    ensures
        ({
            let whole = "{\"version\":"@ + version + ",\"release\":"@ + release + ",\"db_url\":"@
                + db + ",\"embedder\":"@ + embedder + ",\"space\":"@ + space + ",\"pool\":"@ + pool
                + ",\"max_k\":"@ + max_k + ",\"tool_desc\":"@ + overrides + "}"@;
            &&& occurs(whole, "{\"version\":"@ + version)
            &&& occurs(whole, ",\"release\":"@ + release)
            &&& occurs(whole, ",\"db_url\":"@ + db)
            &&& occurs(whole, ",\"embedder\":"@ + embedder)
            &&& occurs(whole, ",\"space\":"@ + space)
            &&& occurs(whole, ",\"pool\":"@ + pool + ",\"max_k\":"@ + max_k)
            &&& occurs(whole, ",\"tool_desc\":"@ + overrides)
        }),
{
    let s0 = "{\"version\":"@;
    let s1 = s0 + version;
    let s2 = s1 + ",\"release\":"@ + release;
    let s3 = s2 + ",\"db_url\":"@ + db;
    let s4 = s3 + ",\"embedder\":"@ + embedder;
    let s5 = s4 + ",\"space\":"@ + space;
    let sizes = ",\"pool\":"@ + pool + ",\"max_k\":"@ + max_k;
    let s6 = s5 + ",\"pool\":"@ + pool + ",\"max_k\":"@ + max_k;
    let s7 = s6 + ",\"tool_desc\":"@ + overrides;
    let whole = s7 + "}"@;
    assert(s6 =~= s5 + sizes);
    a_sum_starts_and_ends_with_its_parts(s5, sizes);
    a_sum_starts_and_ends_with_its_parts(s7, "}"@);
    lemma_grows(s6, ",\"tool_desc\":"@, overrides);
    lemma_grows(s4, ",\"space\":"@, space);
    lemma_grows(s3, ",\"embedder\":"@, embedder);
    lemma_grows(s2, ",\"db_url\":"@, db);
    lemma_grows(s1, ",\"release\":"@, release);
    a_part_of_a_part_occurs(whole, s7, ",\"tool_desc\":"@ + overrides);
    a_part_of_a_part_occurs(whole, s7, s6);
    a_part_of_a_part_occurs(whole, s6, sizes);
    a_part_of_a_part_occurs(whole, s6, s5);
    a_part_of_a_part_occurs(whole, s5, ",\"space\":"@ + space);
    a_part_of_a_part_occurs(whole, s5, s4);
    a_part_of_a_part_occurs(whole, s4, ",\"embedder\":"@ + embedder);
    a_part_of_a_part_occurs(whole, s4, s3);
    a_part_of_a_part_occurs(whole, s3, ",\"db_url\":"@ + db);
    a_part_of_a_part_occurs(whole, s3, s2);
    a_part_of_a_part_occurs(whole, s2, ",\"release\":"@ + release);
    a_part_of_a_part_occurs(whole, s2, s1);
}

proof fn lemma_grows(start: Seq<char>, mark: Seq<char>, value: Seq<char>)
    ensures
        occurs(start + mark + value, start),
        occurs(start + mark + value, mark + value),
{
    assert(start + mark + value =~= start + (mark + value));
    a_sum_starts_and_ends_with_its_parts(start, mark + value);
}

/// Every override stands in the handshake as the tool's name and its text, in
/// JSON's quotes.
pub proof fn every_override_is_sent(overrides: ToolDescriptions, i: int)
    requires
        0 <= i < overrides.in_order().len(),
    ensures
        occurs(
            overrides_text(overrides),
            json_quoted(overrides.in_order()[i]) + ":"@ + json_quoted(
                overrides@[overrides.in_order()[i]],
            ),
        ),
{
    let parts = overrides.in_order().map_values(|tool: Seq<char>| member(tool, overrides@[tool]));
    let list = joined(parts, ","@);
    every_joined_text_occurs(parts, ","@, i);
    what_is_put_between_occurs("{"@, list, "}"@);
    assert(parts[i] == member(overrides.in_order()[i], overrides@[overrides.in_order()[i]]));
    a_part_of_a_part_occurs(overrides_text(overrides), list, parts[i]);
}

} // verus!
