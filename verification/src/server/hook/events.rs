//! What each event comes to.

use vstd::prelude::*;

use crate::domain::json::Json;
use crate::server::args::HookEvent;
use crate::server::hook::log::{
    every_recalled_id_is_listed, first_time, nudged, recalled, recalled_ids, recalls, written,
    wrote, Entry,
};
use crate::server::hook::payload::{
    all_picked, answer_in, ids_in, last_mark, mcp_parts, pick_ids, response_body, strings_at, value_at, Pick,
};
use crate::server::hook::shell::{branch_slug, is_push, pushes, slug};
use crate::text::chars::{str_texts, texts, to_chars, to_text};
use crate::text::search::{
    a_part_of_a_part_occurs, a_start_of_a_start_is_a_start, a_sum_starts_and_ends_with_its_parts,
    ends_with, holds, occurs, occurs_at, same, starts_with, what_is_put_between_occurs,
};
use crate::text::words::{every_joined_text_occurs, join_texts, joined, trim, trimmed};

verus! {

/// How many recalled ids a briefing after a compaction lists, newest first.
pub const COMPACT_RECALLED_CAP: usize = 40;

/// What a session is told where there is no briefing.
pub const HEADER: &'static str = "Durable project memory lives in agmem, not in this window. Before the first \
move, call the agmem `context` tool with a short query naming the work at hand, and treat \
the briefing as established fact — do not re-derive what it records; verify a specific \
claim only before acting on it. The `recall` tool reaches what the briefing omits; ask \
in words, not keywords. A claim that turns out to be stale is corrected with `remember` + \
`supersedes` (its id ends its line), never worked around. /agmem:checkpoint stores this \
session's durable state back.";

/// What a session is told below a briefing.
pub const FOOTER: &'static str = "The block above is this project's memory briefing (agmem). Treat it as \
established fact — do not re-derive what it records; verify a specific claim only \
before acting on it. The `recall` tool reaches what it omits; ask in words, not \
keywords. A claim that turns out to be stale is corrected with `remember` + `supersedes` \
(its id ends its line), never worked around. /agmem:checkpoint stores this session's \
durable state back.";

/// What a session is told after a compaction.
pub const COMPACTED: &'static str = "NOTE: context was compacted immediately before this. Anything not in agmem \
or on disk is gone — re-read files before assuming their contents, and do not trust \
remembered line numbers. A checkpoint now (/agmem:checkpoint) stores what the summary \
dropped while the reasons are still recoverable.";

/// What a session is told after a push.
pub const PUSH_NUDGE: &'static str = "git push succeeded — that is a checkpoint seam. Store the session's \
durable state in agmem now, as /agmem:checkpoint would: decisions with their reasons, \
corrected assumptions, branch state as fast-decay claims tagged branch:<slug>. Recall \
each topic before writing so corrections land as supersedes. Then continue, or suggest \
/clear if the task is finished.";

/// What a session is told after a question was answered.
pub const DECISION_NUDGE: &'static str = "The answer above is a decision the user just made. Once its reason is \
clear, it is worth one claim in agmem: a `fact` with the decision and the reason, with \
`supersedes` set if it overturns a claim in the briefing. Not every answer needs storing; \
a routine choice does not, and one a future session would otherwise re-ask does.";

/// What a session is told that recalled and wrote nothing.
pub const STOP_NUDGE: &'static str = "This session recalled memory and has written none back. If it \
established anything durable — a decision with its reason, a corrected assumption, a \
gotcha that cost time — /agmem:checkpoint stores it; if it established nothing, nothing \
is the right amount to store.";

/// A line to add to the session log.
#[derive(Debug, PartialEq, Eq)]
pub struct NewEntry {
    pub kind: &'static str,
    pub name: &'static str,
    pub ids: Vec<String>,
    pub cites: Vec<String>,
}

/// What an event comes to: a line for the log, a text for the session, both or
/// neither.
#[derive(Debug, PartialEq, Eq)]
pub struct Reaction {
    pub log: Option<NewEntry>,
    pub say: Option<&'static str>,
}

/// What the client calls an event.
pub open spec fn event_word(event: HookEvent) -> Seq<char> {
    match event {
        HookEvent::SessionStart => "SessionStart"@,
        HookEvent::PostToolUse => "PostToolUse"@,
        HookEvent::Stop => "Stop"@,
    }
}

/// What the client calls an event.
pub fn event_name(event: HookEvent) -> (name: &'static str)
    ensures
        name@ == event_word(event),
        event == HookEvent::SessionStart ==> name@ == "SessionStart"@,
        event == HookEvent::PostToolUse ==> name@ == "PostToolUse"@,
        event == HookEvent::Stop ==> name@ == "Stop"@,
{
    match event {
        HookEvent::SessionStart => "SessionStart",
        HookEvent::PostToolUse => "PostToolUse",
        HookEvent::Stop => "Stop",
    }
}

/// The tool name splits into a server and a verb.
pub open spec fn names_tool(tool: Seq<char>, server: Seq<char>, verb: Seq<char>) -> bool {
    starts_with(tool, "mcp__"@) && exists|at: int|
        #![trigger last_mark(tool.skip(5), at)]
        last_mark(tool.skip(5), at) && server == tool.skip(5).take(at) && verb == tool.skip(5).skip(
            at + 2,
        )
}

/// The tool is one of agmem's.
pub open spec fn ours(tool: Seq<char>, verb: Seq<char>) -> bool {
    exists|server: Seq<char>|
        #![trigger names_tool(tool, server, verb)]
        names_tool(tool, server, verb) && occurs(server, "agmem"@)
}

/// The field of a payload, or null.
pub open spec fn part(payload: Json, key: Seq<char>) -> Json {
    match payload.field(key) {
        Some(value) => value,
        None => Json::Null,
    }
}

/// The command a shell tool ran.
pub open spec fn command_in(payload: Json) -> Seq<char> {
    match part(payload, "tool_input"@).field_text("command"@) {
        Some(command) => command,
        None => Seq::empty(),
    }
}

/// The shell tool's command succeeded; one that does not say so did.
pub open spec fn succeeded(payload: Json) -> bool {
    match part(payload, "tool_response"@).field("exit_code"@) {
        Some(code) => match code.integer() {
            Some(n) => n == 0 || n < i64::MIN || i64::MAX < n,
            None => true,
        },
        None => true,
    }
}

/// A push to nudge after, the first in this session.
pub open spec fn nudges_push(payload: Json, entries: Seq<Entry>) -> bool {
    succeeded(payload) && pushes(command_in(payload)) && !nudged(entries, "push"@)
}

/// An answered question to nudge after, the first in this session.
pub open spec fn nudges_decision(entries: Seq<Entry>) -> bool {
    !nudged(entries, "decision"@)
}

/// The log line is one of these kind and name, with these ids and cites.
pub open spec fn logs(
    entry: Option<NewEntry>,
    kind: Seq<char>,
    name: Seq<char>,
    ids: Seq<Seq<char>>,
    cites: Seq<Seq<char>>,
) -> bool {
    entry matches Some(entry) && entry.kind@ == kind && entry.name@ == name && texts(entry.ids@)
        == ids && texts(entry.cites@) == cites
}

/// The ids a recall returned.
pub open spec fn hits_in(payload: Json) -> Seq<Seq<char>> {
    ids_in(
        value_at(answer_in(part(payload, "tool_response"@)), seq!["hits"@]),
        Pick::Field("id"),
    )
}

/// The ids a `remember` created.
pub open spec fn created_in(payload: Json) -> Seq<Seq<char>> {
    ids_in(answer_in(part(payload, "tool_response"@)).field("created"@), Pick::ItselfOrId)
}

/// The id a `reflect` created, if it says one.
pub open spec fn reflected_in(payload: Json) -> Seq<Seq<char>> {
    match answer_in(part(payload, "tool_response"@)).field_text("id"@) {
        Some(id) => seq![id],
        None => Seq::empty(),
    }
}

/// The ids a `reflect` cited.
pub open spec fn cited_in(payload: Json) -> Seq<Seq<char>> {
    ids_in(part(payload, "tool_input"@).field("derived_from"@), Pick::Itself)
}

/// What the use of a tool comes to.
pub open spec fn on_tool_use(payload: Json, entries: Seq<Entry>, reaction: Reaction) -> bool {
    match payload.field_text("tool_name"@) {
        None => reaction.log is None && reaction.say is None,
        Some(tool) => if tool == "Bash"@ {
            if nudges_push(payload, entries) {
                &&& logs(reaction.log, "nudge"@, "push"@, Seq::empty(), Seq::empty())
                &&& reaction.say matches Some(text) && text@ == PUSH_NUDGE@
            } else {
                reaction.log is None && reaction.say is None
            }
        } else if tool == "AskUserQuestion"@ {
            if nudges_decision(entries) {
                &&& logs(reaction.log, "nudge"@, "decision"@, Seq::empty(), Seq::empty())
                &&& reaction.say matches Some(text) && text@ == DECISION_NUDGE@
            } else {
                reaction.log is None && reaction.say is None
            }
        } else {
            &&& reaction.say is None
            &&& if ours(tool, "recall"@) && hits_in(payload).len() > 0 {
                logs(reaction.log, "recall"@, "recall"@, hits_in(payload), Seq::empty())
            } else if ours(tool, "remember"@) {
                logs(reaction.log, "write"@, "remember"@, created_in(payload), Seq::empty())
            } else if ours(tool, "reflect"@) {
                logs(reaction.log, "write"@, "reflect"@, reflected_in(payload), cited_in(payload))
            } else {
                reaction.log is None
            }
        },
    }
}

/// Nothing to log, nothing to say.
fn nothing() -> (reaction: Reaction)
    ensures
        reaction.log is None,
        reaction.say is None,
{
    Reaction { log: None, say: None }
}

/// Two splits of one tool name are the same split.
proof fn lemma_one_split(
    tool: Seq<char>,
    a: Seq<char>,
    b: Seq<char>,
    verb_a: Seq<char>,
    verb_b: Seq<char>,
)
    requires
        names_tool(tool, a, verb_a),
        names_tool(tool, b, verb_b),
    ensures
        a == b,
        verb_a == verb_b,
{
    let rest = tool.skip(5);
    let i = choose|at: int|
        #![trigger last_mark(rest, at)]
        last_mark(rest, at) && a == rest.take(at) && verb_a == rest.skip(at + 2);
    let j = choose|at: int|
        #![trigger last_mark(rest, at)]
        last_mark(rest, at) && b == rest.take(at) && verb_b == rest.skip(at + 2);
    assert(occurs_at(rest, "__"@, i) && occurs_at(rest, "__"@, j));
    assert(i == j);
}

/// A tool of agmem's is known by one verb.
proof fn lemma_ours(tool: Seq<char>, server: Seq<char>, verb: Seq<char>)
    requires
        names_tool(tool, server, verb),
    ensures
        forall|other: Seq<char>| #[trigger]
            ours(tool, other) <==> other == verb && occurs(server, "agmem"@),
{
    assert forall|other: Seq<char>| #[trigger] ours(tool, other) <==> other == verb && occurs(
        server,
        "agmem"@,
    ) by {
        if ours(tool, other) {
            let held = choose|held: Seq<char>|
                #![trigger names_tool(tool, held, other)]
                names_tool(tool, held, other) && occurs(held, "agmem"@);
            lemma_one_split(tool, server, held, verb, other);
        }
    }
}

/// A tool that does not split is none of agmem's.
proof fn lemma_not_ours(tool: Seq<char>)
    requires
        !starts_with(tool, "mcp__"@) || forall|i: int| !occurs_at(tool.skip(5), "__"@, i),
    ensures
        forall|verb: Seq<char>| !#[trigger] ours(tool, verb),
{
    assert forall|verb: Seq<char>| !#[trigger] ours(tool, verb) by {
        if ours(tool, verb) {
            let server = choose|server: Seq<char>|
                #![trigger names_tool(tool, server, verb)]
                names_tool(tool, server, verb) && occurs(server, "agmem"@);
            let at = choose|at: int|
                #![trigger last_mark(tool.skip(5), at)]
                last_mark(tool.skip(5), at) && server == tool.skip(5).take(at) && verb
                    == tool.skip(5).skip(at + 2);
            assert(occurs_at(tool.skip(5), "__"@, at));
        }
    }
}

/// What the use of a shell comes to.
fn on_shell(payload: &Json, entries: &[Entry]) -> (reaction: Reaction)
    ensures
        if nudges_push(*payload, entries@) {
            &&& logs(reaction.log, "nudge"@, "push"@, Seq::empty(), Seq::empty())
            &&& reaction.say matches Some(text) && text@ == PUSH_NUDGE@
        } else {
            reaction.log is None && reaction.say is None
        },
{
    let command = match payload.get("tool_input") {
        Some(input) => match input.get_str("command") {
            Some(command) => command.to_owned(),
            None => String::new(),
        },
        None => String::new(),
    };
    assert(command@ == command_in(*payload));
    let ok = match payload.get("tool_response") {
        Some(response) => match response.get("exit_code") {
            Some(code) => match code.as_i64() {
                Some(n) => n == 0,
                None => true,
            },
            None => true,
        },
        None => true,
    };
    assert(ok == succeeded(*payload));
    if ok && is_push(command.as_str()) && first_time(entries, "push") {
        let entry = NewEntry { kind: "nudge", name: "push", ids: Vec::new(), cites: Vec::new() };
        assert(texts(entry.ids@) =~= Seq::empty());
        return Reaction { log: Some(entry), say: Some(PUSH_NUDGE) };
    }
    nothing()
}

/// What the use of one of agmem's tools comes to.
fn on_our_tool(payload: &Json, verb: &str) -> (reaction: Reaction)
    ensures
        reaction.say is None,
        if verb@ == "recall"@ && hits_in(*payload).len() > 0 {
            logs(reaction.log, "recall"@, "recall"@, hits_in(*payload), Seq::empty())
        } else if verb@ == "remember"@ {
            logs(reaction.log, "write"@, "remember"@, created_in(*payload), Seq::empty())
        } else if verb@ == "reflect"@ {
            logs(reaction.log, "write"@, "reflect"@, reflected_in(*payload), cited_in(*payload))
        } else {
            reaction.log is None
        },
{
    proof {
        reveal_strlit("recall");
        reveal_strlit("remember");
        reveal_strlit("reflect");
        assert("recall"@[2] == 'c' && "remember"@[2] == 'm' && "reflect"@[2] == 'f');
    }
    let null = Json::Null;
    let response = match payload.get("tool_response") {
        Some(response) => response,
        None => &null,
    };
    assert(*response == part(*payload, "tool_response"@));
    let unwrapped = response_body(response);
    let body = match &unwrapped {
        Some(body) => body,
        None => response,
    };
    assert(*body == answer_in(*response));
    let none: Vec<String> = Vec::new();
    assert(texts(none@) =~= Seq::empty());
    if same(verb, "recall") {
        let path: [&str; 1] = ["hits"];
        assert(str_texts(path@) =~= seq!["hits"@]);
        let ids = strings_at(body, &path, "id");
        assert(texts(ids@).len() == ids@.len());
        if ids.len() > 0 {
            let entry = NewEntry { kind: "recall", name: "recall", ids, cites: none };
            return Reaction { log: Some(entry), say: None };
        }
    } else if same(verb, "remember") {
        let ids = pick_ids(body.get("created"), Pick::ItselfOrId);
        let entry = NewEntry { kind: "write", name: "remember", ids, cites: none };
        return Reaction { log: Some(entry), say: None };
    } else if same(verb, "reflect") {
        let mut ids: Vec<String> = Vec::new();
        assert(texts(ids@) =~= Seq::empty());
        if let Some(id) = body.get_str("id") {
            ids.push(id.to_owned());
            assert(texts(ids@) =~= seq![id@]);
        }
        let cites = match payload.get("tool_input") {
            Some(input) => pick_ids(input.get("derived_from"), Pick::Itself),
            None => none,
        };
        assert(texts(cites@) == cited_in(*payload));
        let entry = NewEntry { kind: "write", name: "reflect", ids, cites };
        return Reaction { log: Some(entry), say: None };
    }
    nothing()
}

/// What an answered question comes to.
fn on_question(entries: &[Entry]) -> (reaction: Reaction)
    ensures
        if nudges_decision(entries@) {
            &&& logs(reaction.log, "nudge"@, "decision"@, Seq::empty(), Seq::empty())
            &&& reaction.say matches Some(text) && text@ == DECISION_NUDGE@
        } else {
            reaction.log is None && reaction.say is None
        },
{
    if !first_time(entries, "decision") {
        return nothing();
    }
    let entry = NewEntry { kind: "nudge", name: "decision", ids: Vec::new(), cites: Vec::new() };
    assert(texts(entry.ids@) =~= Seq::empty());
    Reaction { log: Some(entry), say: Some(DECISION_NUDGE) }
}

/// What the use of a tool comes to, given the log so far: recalls and writes
/// are logged, and two seams are nudged at, each once per session: a
/// successful push, and an answered question.
pub fn post_tool_use(payload: &Json, entries: &[Entry]) -> (reaction: Reaction)
    ensures
        on_tool_use(*payload, entries@, reaction),
{
    let tool = match payload.get_str("tool_name") {
        Some(tool) => tool,
        None => {
            return nothing();
        },
    };
    if same(tool, "Bash") {
        return on_shell(payload, entries);
    }
    if same(tool, "AskUserQuestion") {
        return on_question(entries);
    }
    match mcp_parts(tool) {
        Some((server, verb)) => {
            proof {
                assert(names_tool(tool@, server@, verb@));
                lemma_ours(tool@, server@, verb@);
            }
            if !holds(server.as_str(), "agmem") {
                return nothing();
            }
            on_our_tool(payload, verb.as_str())
        },
        None => {
            proof {
                lemma_not_ours(tool@);
            }
            nothing()
        },
    }
}

/// The session is already being continued by a hook.
pub open spec fn continuing(payload: Json) -> bool {
    match payload.field("stop_hook_active"@) {
        Some(value) => value.flag() == Some(true),
        None => false,
    }
}

/// A session to nudge at its end: it recalled, wrote nothing, and was not
/// nudged yet.
pub open spec fn nudges_stop(payload: Json, entries: Seq<Entry>) -> bool {
    !continuing(payload) && !written(entries) && recalled_ids(entries).len() > 0 && !nudged(
        entries,
        "stop"@,
    )
}

/// What a stop comes to, given the log so far.
pub fn stop(payload: &Json, entries: &[Entry]) -> (reaction: Reaction)
    ensures
        if nudges_stop(*payload, entries@) {
            &&& logs(reaction.log, "nudge"@, "stop"@, Seq::empty(), Seq::empty())
            &&& reaction.say matches Some(text) && text@ == STOP_NUDGE@
        } else {
            reaction.log is None && reaction.say is None
        },
{
    let already = match payload.get("stop_hook_active") {
        Some(value) => match value.as_bool() {
            Some(flag) => flag,
            None => false,
        },
        None => false,
    };
    if already || wrote(entries) {
        return nothing();
    }
    let ids = recalled(entries);
    assert(texts(ids@).len() == ids@.len());
    if ids.len() == 0 || !first_time(entries, "stop") {
        return nothing();
    }
    let entry = NewEntry { kind: "nudge", name: "stop", ids: Vec::new(), cites: Vec::new() };
    assert(texts(entry.ids@) =~= Seq::empty());
    Reaction { log: Some(entry), say: Some(STOP_NUDGE) }
}

/// A session is nudged once per seam: once the nudge is in the log, neither a
/// push nor an answered question nor a stop is nudged at again.
pub proof fn a_session_is_nudged_once(entries: Seq<Entry>, entry: Entry, payload: Json)
    requires
        entry.kind@ == "nudge"@,
    ensures
        entry.name@ == "push"@ ==> !nudges_push(payload, entries.push(entry)),
        entry.name@ == "decision"@ ==> !nudges_decision(entries.push(entry)),
        entry.name@ == "stop"@ ==> !nudges_stop(payload, entries.push(entry)),
{
    assert(entries.push(entry)[entries.len() as int] == entry);
}

/// A session that wrote something is never nudged at its end.
pub proof fn a_session_that_wrote_is_left_alone(
    entries: Seq<Entry>,
    entry: Entry,
    payload: Json,
)
    requires
        entry.kind@ == "write"@,
    ensures
        !nudges_stop(payload, entries.push(entry)),
{
    assert(entries.push(entry)[entries.len() as int] == entry);
}

/// The payload's session starts after a compaction.
pub open spec fn compacted(payload: Json) -> bool {
    payload.field_text("source"@) == Some("compact"@)
}

/// The first of some texts.
pub open spec fn first_of(all: Seq<Seq<char>>, n: int) -> Seq<Seq<char>> {
    if all.len() > n {
        all.take(n)
    } else {
        all
    }
}

/// What a session is told after a compaction: what is gone, and what it had
/// recalled.
pub open spec fn compaction_note(recalled: Seq<Seq<char>>) -> Seq<char> {
    if recalled.len() == 0 {
        COMPACTED@
    } else {
        COMPACTED@
            + "\n\nClaims this session recalled before the compaction, newest first — the checkpoint can cite them in `derived_from` without a second recall: "@
            + joined(first_of(recalled, COMPACT_RECALLED_CAP as int), ", "@)
    }
}

/// What a session is told at its start: the briefing where there is one, else
/// where to ask for it; and the tag of the branch it is on.
pub open spec fn opening(briefing: Option<Seq<char>>, branch: Option<Seq<char>>) -> Seq<char> {
    let memory = match briefing {
        Some(block) => if trimmed(block).len() > 0 {
            trimmed(block) + "\n\n"@ + FOOTER@
        } else {
            HEADER@
        },
        None => HEADER@,
    };
    match branch {
        Some(branch) => memory + (" In-flight state for the current branch ("@ + branch
            + ") carries the tag branch:"@ + branch_slug(branch)
            + " — recall with that tag when resuming work here."@),
        None => memory,
    }
}

/// What a session is told at its start.
pub open spec fn told(
    payload: Json,
    entries: Seq<Entry>,
    briefing: Option<Seq<char>>,
    branch: Option<Seq<char>>,
) -> Seq<char> {
    if compacted(payload) {
        compaction_note(recalled_ids(entries)) + "\n\n"@ + opening(briefing, branch)
    } else {
        opening(briefing, branch)
    }
}

/// The first ids of a list, joined.
fn list_first(ids: &Vec<String>) -> (text: String)
    ensures
        text@ == joined(first_of(texts(ids@), COMPACT_RECALLED_CAP as int), ", "@),
{
    let mut kept: Vec<String> = Vec::new();
    let mut i: usize = 0;
    while i < ids.len() && i < COMPACT_RECALLED_CAP
        invariant
            i <= ids@.len(),
            i <= COMPACT_RECALLED_CAP,
            kept@ == ids@.take(i as int),
        decreases ids@.len() - i,
    {
        kept.push(ids[i].clone());
        i += 1;
        assert(kept@ =~= ids@.take(i as int));
    }
    assert(texts(kept@) =~= first_of(texts(ids@), COMPACT_RECALLED_CAP as int));
    join_texts(kept.as_slice(), ", ")
}

/// What a session is told at its start, given the log so far, the briefing
/// where one could be fetched, and the branch it is on.
pub fn session_start(
    payload: &Json,
    entries: &[Entry],
    briefing: Option<&str>,
    branch: Option<&str>,
) -> (text: String)
    ensures
        text@ == told(
            *payload,
            entries@,
            match briefing {
                Some(block) => Some(block@),
                None => None,
            },
            match branch {
                Some(branch) => Some(branch@),
                None => None,
            },
        ),
        ({
            let opened = opening(
                match briefing {
                    Some(block) => Some(block@),
                    None => None,
                },
                match branch {
                    Some(branch) => Some(branch@),
                    None => None,
                },
            );
            text@ == if compacted(*payload) {
                compaction_note(recalled_ids(entries@)) + "\n\n"@ + opened
            } else {
                opened
            }
        }),
        briefing matches Some(block) ==> trimmed(block@).len() > 0 ==> occurs(
            text@,
            trimmed(block@) + "\n\n"@ + FOOTER@,
        ),
        branch matches Some(branch) ==> occurs(text@, branch@) && occurs(
            text@,
            "branch:"@ + branch_slug(branch@),
        ),
{
    proof {
        let block = match briefing {
            Some(block) => Some(block@),
            None => None,
        };
        if let Some(block) = block {
            let name = match branch {
                Some(branch) => Some(branch@),
                None => None,
            };
            if trimmed(block).len() > 0 {
                a_briefing_is_told_whole(*payload, entries@, block, name);
            }
        }
        if let Some(branch) = branch {
            the_branch_and_its_tag_are_told(*payload, entries@, block, branch@);
        }
    }
    let mut memory = HEADER.to_owned();
    if let Some(block) = briefing {
        let chars = to_chars(block);
        let kept = trim(chars.as_slice());
        if kept.len() > 0 {
            memory = to_text(kept).concat("\n\n").concat(FOOTER);
        }
    }
    let mut opened = memory;
    if let Some(branch) = branch {
        let note = " In-flight state for the current branch (".to_owned().concat(branch).concat(
            ") carries the tag branch:",
        ).concat(slug(branch).as_str()).concat(
            " — recall with that tag when resuming work here.",
        );
        opened = opened.concat(note.as_str());
    }
    let after_compaction = match payload.get_str("source") {
        Some(source) => same(source, "compact"),
        None => false,
    };
    if !after_compaction {
        return opened;
    }
    let mut note = COMPACTED.to_owned();
    let ids = recalled(entries);
    assert(texts(ids@).len() == ids@.len());
    if ids.len() > 0 {
        note = note.concat(
            "\n\nClaims this session recalled before the compaction, newest first — the checkpoint can cite them in `derived_from` without a second recall: ",
        ).concat(list_first(&ids).as_str());
    }
    note.concat("\n\n").concat(opened.as_str())
}

proof fn lemma_opening_is_told(
    payload: Json,
    entries: Seq<Entry>,
    briefing: Option<Seq<char>>,
    branch: Option<Seq<char>>,
)
    ensures
        occurs(told(payload, entries, briefing, branch), opening(briefing, branch)),
        ends_with(told(payload, entries, briefing, branch), opening(briefing, branch)),
{
    let opened = opening(briefing, branch);
    let whole = told(payload, entries, briefing, branch);
    let none = Seq::<char>::empty();
    let before = if compacted(payload) {
        compaction_note(recalled_ids(entries)) + "\n\n"@
    } else {
        none
    };
    assert(whole =~= before + opened + none);
    what_is_put_between_occurs(before, opened, none);
}

/// A briefing is told whole, down to its last line, with its footer directly
/// below: after a compaction or not, on a branch or not. It opens the text
/// where no compaction has to be told first.
pub proof fn a_briefing_is_told_whole(
    payload: Json,
    entries: Seq<Entry>,
    block: Seq<char>,
    branch: Option<Seq<char>>,
)
    requires
        trimmed(block).len() > 0,
    ensures
        occurs(
            told(payload, entries, Some(block), branch),
            trimmed(block) + "\n\n"@ + FOOTER@,
        ),
        !compacted(payload) ==> starts_with(
            told(payload, entries, Some(block), branch),
            trimmed(block),
        ),
{
    lemma_briefing_opens(block, branch);
    lemma_opening_is_told(payload, entries, Some(block), branch);
    a_part_of_a_part_occurs(
        told(payload, entries, Some(block), branch),
        opening(Some(block), branch),
        trimmed(block) + "\n\n"@ + FOOTER@,
    );
}

proof fn lemma_briefing_opens(block: Seq<char>, branch: Option<Seq<char>>)
    requires
        trimmed(block).len() > 0,
    ensures
        occurs(opening(Some(block), branch), trimmed(block) + "\n\n"@ + FOOTER@),
        starts_with(opening(Some(block), branch), trimmed(block)),
{
    lemma_opening_starts(Some(block), branch);
    lemma_starts_with_first(trimmed(block), "\n\n"@, FOOTER@);
    a_start_of_a_start_is_a_start(
        opening(Some(block), branch),
        opening(Some(block), None),
        trimmed(block),
    );
}

proof fn lemma_starts_with_first(a: Seq<char>, b: Seq<char>, c: Seq<char>)
    ensures
        starts_with(a + b + c, a),
{
    assert((a + b + c).subrange(0, a.len() as int) =~= a);
}

/// The branch is told below the rest.
proof fn lemma_opening_starts(briefing: Option<Seq<char>>, branch: Option<Seq<char>>)
    ensures
        starts_with(opening(briefing, branch), opening(briefing, None)),
        occurs(opening(briefing, branch), opening(briefing, None)),
{
    let memory = opening(briefing, None);
    let none = Seq::<char>::empty();
    match branch {
        Some(branch) => {
            let note = " In-flight state for the current branch ("@ + branch
                + ") carries the tag branch:"@ + branch_slug(branch)
                + " — recall with that tag when resuming work here."@;
            a_sum_starts_and_ends_with_its_parts(memory, note);
        },
        None => {
            assert(memory + none =~= memory);
            a_sum_starts_and_ends_with_its_parts(memory, none);
        },
    }
}

/// What is told of a branch holds its name and its tag.
proof fn lemma_branch_note(memory: Seq<char>, branch: Seq<char>, tag: Seq<char>)
    ensures
        ({
            let opened = memory + (" In-flight state for the current branch ("@ + branch
                + ") carries the tag branch:"@ + tag
                + " — recall with that tag when resuming work here."@);
            occurs(opened, branch) && occurs(opened, "branch:"@ + tag)
        }),
{
    let lead = " In-flight state for the current branch ("@;
    let mid = ") carries the tag branch:"@;
    let end = " — recall with that tag when resuming work here."@;
    let opened = memory + (lead + branch + mid + tag + end);
    assert(occurs(opened, branch)) by {
        let after = mid + tag + end;
        assert(opened =~= (memory + lead) + branch + after);
        what_is_put_between_occurs(memory + lead, branch, after);
    }
    assert(occurs(opened, "branch:"@ + tag)) by {
        let first = ") carries the tag "@;
        assert(mid =~= first + "branch:"@) by {
            reveal_strlit(") carries the tag branch:");
            reveal_strlit(") carries the tag ");
            reveal_strlit("branch:");
        }
        let before = memory + lead + branch + first;
        assert(opened =~= before + ("branch:"@ + tag) + end);
        what_is_put_between_occurs(before, "branch:"@ + tag, end);
    }
}

/// Without a briefing, or with a blank one, the session is told where to ask
/// for one, and not what stands below a briefing.
pub proof fn without_a_briefing_the_way_to_one_is_told(
    payload: Json,
    entries: Seq<Entry>,
    block: Seq<char>,
    branch: Option<Seq<char>>,
)
    requires
        trimmed(block).len() == 0,
    ensures
        occurs(told(payload, entries, None, branch), HEADER@),
        told(payload, entries, Some(block), branch) == told(payload, entries, None, branch),
{
    lemma_opening_starts(None, branch);
    lemma_opening_is_told(payload, entries, None, branch);
    assert(opening(None, None) == HEADER@);
    a_part_of_a_part_occurs(
        told(payload, entries, None, branch),
        opening(None, branch),
        HEADER@,
    );
}

/// On a branch the session is told its name and its tag, below everything it
/// would be told without one.
pub proof fn the_branch_and_its_tag_are_told(
    payload: Json,
    entries: Seq<Entry>,
    briefing: Option<Seq<char>>,
    branch: Seq<char>,
)
    ensures
        occurs(told(payload, entries, briefing, Some(branch)), branch),
        occurs(told(payload, entries, briefing, Some(branch)), "branch:"@ + branch_slug(branch)),
        starts_with(
            told(payload, entries, briefing, Some(branch)),
            told(payload, entries, briefing, None),
        ),
{
    let whole = told(payload, entries, briefing, Some(branch));
    let opened = opening(briefing, Some(branch));
    let tag = branch_slug(branch);
    lemma_opening_is_told(payload, entries, briefing, Some(branch));
    lemma_branch_note(opening(briefing, None), branch, tag);
    a_part_of_a_part_occurs(whole, opened, branch);
    a_part_of_a_part_occurs(whole, opened, "branch:"@ + tag);
    lemma_told_starts(payload, entries, briefing, branch);
}

proof fn lemma_told_starts(
    payload: Json,
    entries: Seq<Entry>,
    briefing: Option<Seq<char>>,
    branch: Seq<char>,
)
    ensures
        starts_with(
            told(payload, entries, briefing, Some(branch)),
            told(payload, entries, briefing, None),
        ),
{
    lemma_opening_starts(briefing, Some(branch));
    if compacted(payload) {
        lemma_same_start(
            compaction_note(recalled_ids(entries)) + "\n\n"@,
            opening(briefing, Some(branch)),
            opening(briefing, None),
        );
    }
}

proof fn lemma_same_start(before: Seq<char>, whole: Seq<char>, part: Seq<char>)
    requires
        starts_with(whole, part),
    ensures
        starts_with(before + whole, before + part),
{
    let long = before + whole;
    let short = before + part;
    assert forall|i: int| 0 <= i < short.len() implies long.subrange(0, short.len() as int)[i]
        == short[i] by {
        if i >= before.len() {
            assert(whole.subrange(0, part.len() as int)[i - before.len()] == part[i
                - before.len()]);
        }
    }
    assert(long.subrange(0, short.len() as int) =~= short);
}

/// After a compaction the session is told so first, then the newest of the
/// claims it had recalled, and then what it would be told anyway; without a
/// compaction nothing depends on the log.
pub proof fn a_compaction_is_told_with_what_was_recalled(
    payload: Json,
    entries: Seq<Entry>,
    others: Seq<Entry>,
    briefing: Option<Seq<char>>,
    branch: Option<Seq<char>>,
    plain: Json,
    i: int,
)
    requires
        payload.field_text("source"@) == Some("compact"@),
        plain.field_text("source"@) != Some("compact"@),
    ensures
        starts_with(told(payload, entries, briefing, branch), COMPACTED@),
        0 <= i < recalled_ids(entries).len() && i < 40 ==> occurs(
            told(payload, entries, briefing, branch),
            recalled_ids(entries)[i],
        ),
        ends_with(
            told(payload, entries, briefing, branch),
            told(plain, others, briefing, branch),
        ),
        told(plain, entries, briefing, branch) == told(plain, others, briefing, branch),
{
    let whole = told(payload, entries, briefing, branch);
    let ids = recalled_ids(entries);
    let note = compaction_note(ids);
    let none = Seq::<char>::empty();
    lemma_opening_is_told(payload, entries, briefing, branch);
    let after = "\n\n"@ + opening(briefing, branch);
    assert(whole =~= none + note + after);
    what_is_put_between_occurs(none, note, after);
    assert(whole.subrange(0, COMPACTED@.len() as int) =~= COMPACTED@);
    if 0 <= i < ids.len() && i < 40 {
        let kept = first_of(ids, COMPACT_RECALLED_CAP as int);
        let list = joined(kept, ", "@);
        assert(kept[i] == ids[i]);
        every_joined_text_occurs(kept, ", "@, i);
        let before = note.take(note.len() - list.len());
        assert(note =~= before + list + none);
        what_is_put_between_occurs(before, list, none);
        a_part_of_a_part_occurs(note, list, ids[i]);
        a_part_of_a_part_occurs(whole, note, ids[i]);
    }
}

/// A tool of an agmem server is known by its verb, under whatever name the
/// server goes, and a tool of another server is not.
pub proof fn our_tools_are_known_by_their_verb(server: Seq<char>, verb: Seq<char>)
    requires
        forall|i: int| 0 <= i < verb.len() ==> #[trigger] verb[i] != '_',
    ensures
        forall|other: Seq<char>| #[trigger]
            ours("mcp__"@ + server + "__"@ + verb, other) <==> other == verb && occurs(
                server,
                "agmem"@,
            ),
{
    reveal_strlit("mcp__");
    reveal_strlit("__");
    let tool = "mcp__"@ + server + "__"@ + verb;
    let rest = tool.skip(5);
    let at = server.len() as int;
    assert(tool.subrange(0, 5) =~= "mcp__"@);
    assert(rest =~= server + "__"@ + verb);
    assert(rest.subrange(at, at + 2) =~= "__"@);
    assert(occurs_at(rest, "__"@, at));
    assert forall|i: int| at < i implies !occurs_at(rest, "__"@, i) by {
        if occurs_at(rest, "__"@, i) {
            assert(rest.subrange(i, i + 2)[1] == "__"@[1]);
            assert(rest[i + 1] == '_');
            assert(verb[i + 1 - at - 2] == '_');
        }
    }
    assert(last_mark(rest, at));
    assert(rest.take(at) =~= server);
    assert(rest.skip(at + 2) =~= verb);
    assert(names_tool(tool, server, verb));
    lemma_ours(tool, server, verb);
}

/// Every recall, every write and every citation of one of agmem's tools is
/// logged with its ids, and nothing is said; another server's tool leaves no
/// trace.
pub proof fn our_tools_are_logged(
    payload: Json,
    entries: Seq<Entry>,
    reaction: Reaction,
    server: Seq<char>,
    verb: Seq<char>,
)
    requires
        payload.field_text("tool_name"@) == Some("mcp__"@ + server + "__"@ + verb),
        forall|i: int| 0 <= i < verb.len() ==> #[trigger] verb[i] != '_',
        on_tool_use(payload, entries, reaction),
    ensures
        reaction.say is None,
        !occurs(server, "agmem"@) ==> reaction.log is None,
        occurs(server, "agmem"@) && verb == "recall"@ ==> (if hits_in(payload).len() > 0 {
            logs(reaction.log, "recall"@, "recall"@, hits_in(payload), Seq::empty())
        } else {
            reaction.log is None
        }),
        verb != "recall"@ && verb != "remember"@ && verb != "reflect"@ ==> reaction.log is None,
        occurs(server, "agmem"@) && verb == "remember"@ ==> logs(
            reaction.log,
            "write"@,
            "remember"@,
            created_in(payload),
            Seq::empty(),
        ),
        occurs(server, "agmem"@) && verb == "reflect"@ ==> logs(
            reaction.log,
            "write"@,
            "reflect"@,
            reflected_in(payload),
            cited_in(payload),
        ),
{
    reveal_strlit("mcp__");
    reveal_strlit("Bash");
    reveal_strlit("AskUserQuestion");
    reveal_strlit("recall");
    reveal_strlit("remember");
    reveal_strlit("reflect");
    assert("recall"@[2] == 'c' && "remember"@[2] == 'm' && "reflect"@[2] == 'f');
    let tool = "mcp__"@ + server + "__"@ + verb;
    assert(tool[0] == 'm' && "Bash"@[0] == 'B' && "AskUserQuestion"@[0] == 'A');
    our_tools_are_known_by_their_verb(server, verb);
}

/// What a recall is logged with is the `id` of every hit of its answer, what a
/// `remember` is logged with every created id, and what a `reflect` cites
/// every id it was derived from.
pub proof fn the_logged_ids_are_those_of_the_answer(
    payload: Json,
    response: Json,
    input: Json,
    items: Seq<Json>,
)
    requires
        payload.field("tool_response"@) == Some(response),
        payload.field("tool_input"@) == Some(input),
        response is Object,
        response.field("content"@) is None,
    ensures
        (response.field("hits"@) matches Some(hits) && hits.items() == Some(items))
            ==> hits_in(payload) == all_picked(items, Pick::Field("id")),
        (response.field("created"@) matches Some(created) && created.items() == Some(items))
            ==> created_in(payload) == all_picked(items, Pick::ItselfOrId),
        (input.field("derived_from"@) matches Some(cited) && cited.items() == Some(items))
            ==> cited_in(payload) == all_picked(items, Pick::Itself),
        response.field_text("id"@) matches Some(id) ==> reflected_in(payload) == seq![id],
{
    assert(seq!["hits"@].skip(1) =~= Seq::empty());
    if let Some(hits) = response.field("hits"@) {
        assert(value_at(hits, seq!["hits"@].skip(1)) == Some(hits));
        assert(value_at(response, seq!["hits"@]) == Some(hits));
    }
}

/// A push is nudged at where the command pushed and did not fail, unless it
/// was nudged at before in this session; a question likewise.
pub proof fn a_seam_is_nudged_at_the_first_time(
    payload: Json,
    entries: Seq<Entry>,
    reaction: Reaction,
    input: Json,
    response: Json,
    command: Seq<char>,
    code: i64,
)
    requires
        code != 0,
        on_tool_use(payload, entries, reaction),
        payload.field("tool_input"@) == Some(input),
        payload.field("tool_response"@) == Some(response),
        input.field_text("command"@) == Some(command),
    ensures
        payload.field_text("tool_name"@) == Some("Bash"@) && pushes(command) && !nudged(
            entries,
            "push"@,
        ) && (response.field("exit_code"@) is None || response.field("exit_code"@) == Some(
            Json::Number(Some(0)),
        )) ==> (reaction.say matches Some(text) && text@ == PUSH_NUDGE@),
        payload.field_text("tool_name"@) == Some("Bash"@) && (!pushes(command) || nudged(
            entries,
            "push"@,
        ) || response.field("exit_code"@) == Some(Json::Number(Some(code as i128)))) ==> reaction.say is None
            && reaction.log is None,
        payload.field_text("tool_name"@) == Some("AskUserQuestion"@) ==> (reaction.say is Some
            <==> !nudged(entries, "decision"@)),
{
    reveal_strlit("Bash");
    reveal_strlit("AskUserQuestion");
    assert("Bash"@.len() == 4 && "AskUserQuestion"@.len() == 15);
}

/// A session is nudged at its end exactly where it recalled something, wrote
/// nothing, was not nudged yet and is not being continued by a hook.
pub proof fn a_session_that_only_recalled_is_nudged(
    payload: Json,
    entries: Seq<Entry>,
    i: int,
    id: Seq<char>,
)
    requires
        0 <= i < entries.len(),
        recalls(entries[i], id),
    ensures
        nudges_stop(payload, entries) <==> !written(entries) && !nudged(entries, "stop"@)
            && payload.field("stop_hook_active"@) != Some(Json::Bool(true)),
{
    every_recalled_id_is_listed(entries, id);
    assert(recalled_ids(entries).contains(id));
}

/// A tool that is neither the shell, nor a question, nor one of a server's
/// leaves no trace, and neither does a payload that names none.
pub proof fn another_tool_leaves_no_trace(
    payload: Json,
    entries: Seq<Entry>,
    reaction: Reaction,
    tool: Seq<char>,
)
    requires
        on_tool_use(payload, entries, reaction),
        payload.field_text("tool_name"@) is None || (payload.field_text("tool_name"@) == Some(tool)
            && tool != "Bash"@ && tool != "AskUserQuestion"@ && !starts_with(tool, "mcp__"@)),
    ensures
        reaction.log is None,
        reaction.say is None,
{
    if payload.field_text("tool_name"@) == Some(tool) {
        lemma_not_ours(tool);
    }
}

/// What is logged is an entry of that kind and name, with those ids and those
/// citations.
pub proof fn a_logged_entry_holds_its_ids(
    entry: NewEntry,
    kind: Seq<char>,
    name: Seq<char>,
    ids: Seq<Seq<char>>,
    cites: Seq<Seq<char>>,
)
    ensures
        logs(Some(entry), kind, name, ids, cites) <==> entry.kind@ == kind && entry.name@ == name
            && texts(entry.ids@) == ids && texts(entry.cites@) == cites,
        !logs(None, kind, name, ids, cites),
{
}

/// Of many recalled claims the forty newest are told, and no more.
pub proof fn forty_recalled_claims_are_told_at_most(recalled: Seq<Seq<char>>)
    ensures
        recalled.len() > 40 ==> compaction_note(recalled) == compaction_note(recalled.take(40)),
        recalled.len() == 0 ==> compaction_note(recalled) == COMPACTED@,
        0 < recalled.len() <= 40 ==> ends_with(compaction_note(recalled), joined(recalled, ", "@)),
{
    if recalled.len() > 40 {
        assert(first_of(recalled.take(40), 40) == recalled.take(40));
    }
    if 0 < recalled.len() <= 40 {
        let lead = COMPACTED@
            + "\n\nClaims this session recalled before the compaction, newest first — the checkpoint can cite them in `derived_from` without a second recall: "@;
        a_sum_starts_and_ends_with_its_parts(lead, joined(recalled, ", "@));
    }
}

/// A command that says nothing of how it ended, or nothing that can be read,
/// counts as one that succeeded; one that says a number succeeded with zero.
pub proof fn only_a_code_that_says_so_is_a_failure(payload: Json, response: Json, code: i128)
    requires
        payload.field("tool_response"@) == Some(response),
    ensures
        response.field("exit_code"@) is None ==> succeeded(payload),
        (response.field("exit_code"@) matches Some(value) && !(value is Number)) ==> succeeded(
            payload,
        ),
        response.field("exit_code"@) == Some(Json::Number(Some(code))) ==> (succeeded(payload)
            <==> code == 0 || code < -9223372036854775808 || code > 9223372036854775807),
{
}

/// A session that recalled nothing is never nudged at its end.
pub proof fn a_session_that_recalled_nothing_is_left_alone(payload: Json, entries: Seq<Entry>)
    requires
        forall|i: int, id: Seq<char>|
            0 <= i < entries.len() ==> !#[trigger] recalls(entries[i], id),
    ensures
        !nudges_stop(payload, entries),
{
    let ids = recalled_ids(entries);
    if ids.len() > 0 {
        let id = ids[0];
        assert(ids.contains(id));
        every_recalled_id_is_listed(entries, id);
        let i = choose|i: int| 0 <= i < entries.len() && recalls(#[trigger] entries[i], id);
        assert(!recalls(entries[i], id));
    }
}

/// Whatever is said is logged so that it is not said again: with the logged
/// line among the entries, the same tool is met with silence for the rest of
/// the session.
pub proof fn what_is_said_is_said_once(
    payload: Json,
    entries: Seq<Entry>,
    reaction: Reaction,
    entry: Entry,
    later: Json,
    more: Seq<Entry>,
    next: Reaction,
)
    requires
        on_tool_use(payload, entries, reaction),
        reaction.say is Some,
        reaction.log matches Some(line) && entry.kind@ == line.kind@ && entry.name@ == line.name@,
        later.field_text("tool_name"@) == payload.field_text("tool_name"@),
        on_tool_use(later, entries.push(entry) + more, next),
    ensures
        next.say is None,
        next.log is None,
{
    let all = entries.push(entry) + more;
    assert(all[entries.len() as int] == entry);
}

/// A nudge is logged as one, with no ids and no citations, under the name of
/// its seam.
pub proof fn a_nudge_is_logged_as_one(payload: Json, entries: Seq<Entry>, reaction: Reaction)
    requires
        on_tool_use(payload, entries, reaction),
        reaction.say is Some,
    ensures
        payload.field_text("tool_name"@) == Some("Bash"@) ==> logs(
            reaction.log,
            "nudge"@,
            "push"@,
            Seq::empty(),
            Seq::empty(),
        ) && reaction.say->0@ == PUSH_NUDGE@,
        payload.field_text("tool_name"@) == Some("AskUserQuestion"@) ==> logs(
            reaction.log,
            "nudge"@,
            "decision"@,
            Seq::empty(),
            Seq::empty(),
        ) && reaction.say->0@ == DECISION_NUDGE@,
        payload.field_text("tool_name"@) == Some("Bash"@) || payload.field_text("tool_name"@)
            == Some("AskUserQuestion"@),
{
    reveal_strlit("Bash");
    reveal_strlit("AskUserQuestion");
    assert("Bash"@.len() == 4 && "AskUserQuestion"@.len() == 15);
}

} // verus!
