//! `--doctor`: prove an installation works.
//!
//! One check per line, on stderr, and an exit status that says whether every
//! line passed. What it can check depends on who owns the store: with a shared
//! daemon running, the checks that need the database are the daemon's, so they
//! are reported as skipped rather than faked.

use vstd::prelude::*;

use crate::server::client::slice_text;
use crate::server::tools::ToolDescriptions;
use crate::text::chars::texts;
use crate::text::number::{decimal, to_decimal};
use crate::text::pad::{pad_end, padded_end};
use crate::text::search::{
    a_sum_starts_and_ends_with_its_parts, ends_with, occurs, same, what_is_put_between_occurs,
};
use crate::text::words::{every_joined_text_occurs, join_strs, join_texts, joined};

verus! {

/// The first line of the report.
pub const TITLE: &'static str = "agmem doctor";

/// The last line of a report in which nothing failed.
pub const ALL_PASSED: &'static str = "doctor: all checks passed";

/// How a check came out.
#[derive(Debug, Clone, Copy, PartialEq, Eq, Structural)]
pub enum Mark {
    Passed,
    Failed,
    Skipped,
}

impl Mark {
    /// The word the report uses.
    pub open spec fn word(self) -> Seq<char> {
        match self {
            Mark::Passed => "ok"@,
            Mark::Failed => "FAIL"@,
            Mark::Skipped => "skip"@,
        }
    }

    /// The word the report uses.
    pub fn as_str(self) -> (word: &'static str)
        ensures
            word@ == self.word(),
            self == Mark::Passed ==> word@ == "ok"@,
            self == Mark::Failed ==> word@ == "FAIL"@,
            self == Mark::Skipped ==> word@ == "skip"@,
    {
        match self {
            Mark::Passed => "ok",
            Mark::Failed => "FAIL",
            Mark::Skipped => "skip",
        }
    }
}

/// One line of the report.
#[derive(Debug, PartialEq, Eq)]
pub struct Line {
    pub mark: Mark,
    /// What was checked.
    pub name: &'static str,
    /// What was found.
    pub detail: String,
}

/// What a line of the report says: how the check came out, its name, and what
/// was found.
pub type Said = (Mark, Seq<char>, Seq<char>);

impl View for Line {
    type V = Said;

    open spec fn view(&self) -> Said {
        (self.mark, self.name@, self.detail@)
    }
}

/// What some lines say.
pub open spec fn said(lines: Seq<Line>) -> Seq<Said> {
    lines.map_values(|line: Line| line@)
}

/// How wide the column is that a check's name stands in: one for all, but the
/// line on the checks that a daemon made is set one further in.
pub open spec fn column(name: Seq<char>) -> nat {
    if name == "database + schema"@ {
        22
    } else {
        21
    }
}

impl Line {
    fn new(mark: Mark, name: &'static str, detail: String) -> (line: Self)
        ensures
            line@ == (mark, name@, detail@),
    {
        Line { mark, name, detail }
    }

    /// The line as it is printed: the mark, the name and the detail, each in
    /// its column.
    pub fn text(&self) -> (text: String)
        ensures
            text@ == "  "@ + padded_end(self.mark.word(), 6) + padded_end(
                self.name@,
                column(self.name@),
            ) + self.detail@,
    {
        let mark = pad_end(self.mark.as_str(), 6);
        let width: usize = if same(self.name, "database + schema") {
            22
        } else {
            21
        };
        let name = pad_end(self.name, width);
        "  ".to_owned().concat(mark.as_str()).concat(name.as_str()).concat(self.detail.as_str())
    }
}

/// One check over an open store, as the daemon logs it at start and `--doctor`
/// prints it.
#[derive(Debug, PartialEq, Eq)]
pub struct Check {
    /// What was checked, in the words the report uses.
    pub name: &'static str,
    /// What was found: a detail worth a log line, or why it failed.
    pub outcome: Result<String, String>,
}

/// What a check says once it is a line.
pub open spec fn outcome_said(name: Seq<char>, outcome: Result<String, String>) -> Said {
    match outcome {
        Ok(detail) => (Mark::Passed, name, detail@),
        Err(why) => (Mark::Failed, name, why@),
    }
}

impl Check {
    /// The check as a line of the report.
    pub fn line(self) -> (line: Line)
        ensures
            line@ == outcome_said(self.name@, self.outcome),
    {
        match self.outcome {
            Ok(detail) => Line::new(Mark::Passed, self.name, detail),
            Err(why) => Line::new(Mark::Failed, self.name, why),
        }
    }
}

/// The data dir: it must take a file.
pub fn data_dir(dir: &str, outcome: Result<(), String>) -> (line: Line)
    ensures
        line@ == (match outcome {
            Ok(_) => (Mark::Passed, "data dir writable"@, dir@),
            Err(why) => (Mark::Failed, "data dir"@, why@),
        }),
{
    match outcome {
        Ok(_) => Line::new(Mark::Passed, "data dir writable", dir.to_owned()),
        Err(why) => Line::new(Mark::Failed, "data dir", why),
    }
}

/// Which words an agent is handed for the tools. Not a check, since nothing
/// here can fail: it is on the report because an override is invisible from
/// the outside.
pub fn tool_descriptions(overrides: &ToolDescriptions) -> (line: Line)
    ensures
        line@ == (
            Mark::Passed,
            "tool descriptions"@,
            if overrides@ == Map::<Seq<char>, Seq<char>>::empty() {
                "agmem's own wording"@
            } else {
                "overridden: "@ + joined(overrides.in_order(), ", "@)
            },
        ),
{
    let detail = if overrides.is_empty() {
        "agmem's own wording".to_owned()
    } else {
        let names = overrides.tools();
        let list = join_strs(names.as_slice(), ", ");
        "overridden: ".to_owned().concat(list.as_str())
    };
    Line::new(Mark::Passed, "tool descriptions", detail)
}

/// What a report on a store that the daemon at `socket` owns says of it.
pub open spec fn daemon_said(socket: Seq<char>) -> Seq<Said> {
    seq![
        (Mark::Passed, "shared daemon"@, "serving "@ + socket),
        (Mark::Skipped, "single-writer lock"@, "the daemon holds it"@),
        (
            Mark::Skipped,
            "database + schema"@,
            "the daemon checked these when it started; its log has the result"@,
        ),
    ]
}

/// A daemon that answers at `socket` owns the store, so the lock and the
/// database are its own to check.
pub fn daemon_lines(socket: &str) -> (lines: Vec<Line>)
    ensures
        said(lines@) == daemon_said(socket@),
{
    let mut lines: Vec<Line> = Vec::new();
    lines.push(Line::new(Mark::Passed, "shared daemon", "serving ".to_owned().concat(socket)));
    lines.push(
        Line::new(Mark::Skipped, "single-writer lock", "the daemon holds it".to_owned()),
    );
    lines.push(
        Line::new(
            Mark::Skipped,
            "database + schema",
            "the daemon checked these when it started; its log has the result".to_owned(),
        ),
    );
    assert(said(lines@) =~= daemon_said(socket@));
    lines
}

/// What a report says of a daemon that is not there.
pub open spec fn absent_said() -> Said {
    (Mark::Passed, "shared daemon"@, "not running; the next session starts one"@)
}

/// No daemon answers where one would be shared.
pub fn daemon_absent() -> (line: Line)
    ensures
        line@ == absent_said(),
{
    Line::new(
        Mark::Passed,
        "shared daemon",
        "not running; the next session starts one".to_owned(),
    )
}

/// What a report says of the daemon, and whether it goes on to the store.
/// `shared` is whether the configuration shares a daemon, `live` the socket of
/// one that answers. A store that a daemon holds is never opened beside it.
pub open spec fn probe_said(shared: bool, live: Option<Seq<char>>) -> (Seq<Said>, bool) {
    if !shared {
        (Seq::empty(), true)
    } else {
        match live {
            Some(socket) => (daemon_said(socket), false),
            None => (seq![absent_said()], true),
        }
    }
}

/// The lines on the daemon, and whether the report goes on to the lock and the
/// store. Where it does not, the embedder is all that is left to check.
pub fn after_daemon_probe(shared: bool, live: Option<&str>) -> (next: (Vec<Line>, bool))
    ensures
        said(next.0@) == probe_said(shared, slice_text(live)).0,
        next.1 == probe_said(shared, slice_text(live)).1,
{
    let mut lines: Vec<Line> = Vec::new();
    assert(said(lines@) =~= Seq::empty());
    if !shared {
        return (lines, true);
    }
    match live {
        Some(socket) => (daemon_lines(socket), false),
        None => {
            lines.push(daemon_absent());
            assert(said(lines@) =~= seq![absent_said()]);
            (lines, true)
        },
    }
}

/// How the single-writer lock was found.
#[derive(Debug, PartialEq, Eq)]
pub enum WriterLock {
    /// A remote engine: there is none to take.
    Remote,
    /// This process holds it.
    Held,
    /// Somebody else does.
    Refused(String),
}

/// What the report says of the single-writer lock.
pub open spec fn lock_said(lock: WriterLock) -> Said {
    match lock {
        WriterLock::Remote => (
            Mark::Skipped,
            "single-writer lock"@,
            "remote engine, DB server is the boundary"@,
        ),
        WriterLock::Held => (Mark::Passed, "single-writer lock"@, "held by this process"@),
        WriterLock::Refused(why) => (Mark::Failed, "single-writer lock"@, why@),
    }
}

/// The single-writer lock. Everything after a refused one needs the store, and
/// taking the store while somebody else holds the lock is the failure that is
/// being reported, so the report ends there.
pub fn writer_lock(lock: WriterLock) -> (found: (Line, bool))
    ensures
        found.0@ == lock_said(lock),
        found.1 == (lock !is Refused),
{
    let name = "single-writer lock";
    match lock {
        WriterLock::Remote => (
            Line::new(Mark::Skipped, name, "remote engine, DB server is the boundary".to_owned()),
            true,
        ),
        WriterLock::Held => (
            Line::new(Mark::Passed, name, "held by this process".to_owned()),
            true,
        ),
        WriterLock::Refused(why) => (Line::new(Mark::Failed, name, why), false),
    }
}

/// A backend that loaded.
#[derive(Debug, PartialEq, Eq)]
pub struct Loaded {
    pub model_id: String,
    /// Vector width; zero for a backend that produces no vectors.
    pub dim: u64,
    /// Where the model runs.
    pub accelerator: String,
}

/// What the report says of the embedder.
pub open spec fn embedder_said(embedder: Result<Loaded, String>) -> Said {
    match embedder {
        Ok(loaded) => (
            Mark::Passed,
            "embedder"@,
            if loaded.dim == 0 {
                "none (test-only, no vectors)"@
            } else {
                loaded.model_id@ + " ("@ + decimal(loaded.dim as nat) + "d, "@
                    + loaded.accelerator@ + ")"@
            },
        ),
        Err(why) => (Mark::Failed, "embedder"@, why@),
    }
}

/// The embedder. Loading the model is the check: on a fresh install this is
/// where the download happens, and a missing model fails here rather than at
/// first use.
pub fn embedder_line(embedder: &Result<Loaded, String>) -> (line: Line)
    ensures
        line@ == embedder_said(*embedder),
{
    match embedder {
        Ok(loaded) => {
            let detail = if loaded.dim == 0 {
                "none (test-only, no vectors)".to_owned()
            } else {
                let dim = to_decimal(loaded.dim);
                loaded.model_id.clone().concat(" (").concat(dim.as_str()).concat("d, ").concat(
                    loaded.accelerator.as_str(),
                ).concat(")")
            };
            Line::new(Mark::Passed, "embedder", detail)
        },
        Err(why) => Line::new(Mark::Failed, "embedder", why.clone()),
    }
}

/// What the report says of `pending` rows without a vector.
pub open spec fn coverage(pending: Result<u64, String>) -> Result<Seq<char>, Seq<char>> {
    match pending {
        Ok(0u64) => Ok("every row carries a vector"@),
        Ok(pending) => Err(
            decimal(pending as nat)
                + " row(s) carry no vector, so a vector recall cannot reach them; run `agmem reindex`"@,
        ),
        Err(why) => Err(why@),
    }
}

/// The texts of an outcome.
pub open spec fn outcome_texts(outcome: Result<String, String>) -> Result<Seq<char>, Seq<char>> {
    match outcome {
        Ok(detail) => Ok(detail@),
        Err(why) => Err(why@),
    }
}

/// Rows the vector half of retrieval cannot reach.
///
/// A re-embedding killed before its end leaves exactly this: rows with no
/// vector, under a record that already names the new model, so that nothing
/// else notices and a vector recall silently misses them.
pub fn vector_coverage(pending: Result<u64, String>) -> (outcome: Result<String, String>)
    ensures
        outcome_texts(outcome) == coverage(pending),
{
    match pending {
        Ok(pending) => {
            if pending == 0 {
                Ok("every row carries a vector".to_owned())
            } else {
                let count = to_decimal(pending);
                Err(
                    count.concat(
                        " row(s) carry no vector, so a vector recall cannot reach them; run `agmem reindex`",
                    ),
                )
            }
        },
        Err(why) => Err(why),
    }
}

/// One space and its number of documents.
pub open spec fn space_count(space: (String, u64)) -> Seq<char> {
    space.0@ + ": "@ + decimal(space.1 as nat)
}

/// What the report says of the documents in each space.
pub open spec fn counted(spaces: Seq<(String, u64)>) -> Seq<char> {
    if spaces.len() == 0 {
        "no space registered yet"@
    } else {
        joined(spaces.map_values(|space: (String, u64)| space_count(space)), ", "@)
    }
}

/// How many documents each registered space holds: the one number that says
/// whether the document tier is in use at all.
pub fn document_counts(spaces: &[(String, u64)]) -> (detail: String)
    ensures
        detail@ == counted(spaces@),
{
    if spaces.len() == 0 {
        return "no space registered yet".to_owned();
    }
    let mut parts: Vec<String> = Vec::new();
    let mut i: usize = 0;
    while i < spaces.len()
        invariant
            i <= spaces@.len(),
            parts@.len() == i,
            forall|j: int| 0 <= j < i ==> (#[trigger] parts@[j])@ == space_count(spaces@[j]),
        decreases spaces@.len() - i,
    {
        let count = to_decimal(spaces[i].1);
        parts.push(spaces[i].0.clone().concat(": ").concat(count.as_str()));
        i += 1;
    }
    assert(texts(parts@) =~= spaces@.map_values(|space: (String, u64)| space_count(space)));
    join_texts(parts.as_slice(), ", ")
}

/// The checks over an open store: a scratch write and read, that every row
/// carries a vector where there is a vector side, and the documents.
///
/// The daemon runs them over the store it already holds. Nothing here decides
/// what a failure means: the daemon logs and serves anyway, the doctor counts
/// it.
pub fn selfcheck(
    roundtrip: Result<(), String>,
    dim: u64,
    pending: Result<u64, String>,
    documents: Result<String, String>,
) -> (checks: Vec<Check>)
    ensures
        checks@.len() == (if dim > 0 {
            3int
        } else {
            2
        }),
        checks@[0].name@ == "write/read roundtrip"@,
        outcome_texts(checks@[0].outcome) == (match roundtrip {
            Ok(_) => Ok::<Seq<char>, Seq<char>>("scratch record created and removed"@),
            Err(why) => Err(why@),
        }),
        dim > 0 ==> checks@[1].name@ == "vector coverage"@ && outcome_texts(checks@[1].outcome)
            == coverage(pending),
        checks@.last().name@ == "documents"@,
        checks@.last().outcome == documents,
{
    let outcome = match roundtrip {
        Ok(_) => Ok("scratch record created and removed".to_owned()),
        Err(why) => Err(why),
    };
    let mut checks: Vec<Check> = Vec::new();
    checks.push(Check { name: "write/read roundtrip", outcome });
    if dim > 0 {
        checks.push(Check { name: "vector coverage", outcome: vector_coverage(pending) });
    }
    checks.push(Check { name: "documents", outcome: documents });
    checks
}

/// What opening the store and looking around in it came to.
#[derive(Debug, PartialEq, Eq)]
pub struct OpenStore {
    /// The schema version after migrating.
    pub schema: Result<u64, String>,
    /// Writing a scratch record and reading it back.
    pub roundtrip: Result<(), String>,
    /// The documents in each space, as [`document_counts`] words them.
    pub documents: Result<String, String>,
    /// Whether the store's vectors are the embedder's own; asked of a backend
    /// that has vectors.
    pub same_space: Result<(), String>,
    /// Rows without a vector; asked of a backend that has vectors.
    pub pending: Result<u64, String>,
}

/// What the report says of the schema.
pub open spec fn schema_said(schema: Result<u64, String>) -> Said {
    match schema {
        Ok(version) => (Mark::Passed, "schema"@, "v"@ + decimal(version as nat)),
        Err(why) => (Mark::Failed, "schema"@, why@),
    }
}

/// What the report says of the scratch record.
pub open spec fn roundtrip_said(roundtrip: Result<(), String>) -> Said {
    match roundtrip {
        Ok(_) => (Mark::Passed, "write/read roundtrip"@, "scratch record created and removed"@),
        Err(why) => (Mark::Failed, "write/read roundtrip"@, why@),
    }
}

/// What the report says of the embedder beside the store.
pub open spec fn same_space_said(same_space: Result<(), String>) -> Said {
    match same_space {
        Ok(_) => (Mark::Passed, "embedder vs store"@, "same model and width"@),
        Err(why) => (Mark::Failed, "embedder vs store"@, why@),
    }
}

/// What the report says of the rows without a vector.
pub open spec fn coverage_said(pending: Result<u64, String>) -> Said {
    match coverage(pending) {
        Ok(detail) => (Mark::Passed, "vector coverage"@, detail),
        Err(why) => (Mark::Failed, "vector coverage"@, why),
    }
}

/// What the report says of the store: the database first, then the embedder,
/// and the two against each other where both came up and there are vectors.
pub open spec fn store_said(
    db_url: Seq<char>,
    opened: Result<OpenStore, String>,
    embedder: Result<Loaded, String>,
) -> Seq<Said> {
    let database = match opened {
        Ok(store) => seq![
            (Mark::Passed, "database open"@, db_url),
            schema_said(store.schema),
            roundtrip_said(store.roundtrip),
            outcome_said("documents"@, store.documents),
        ],
        Err(why) => seq![(Mark::Failed, "database open"@, db_url + ": "@ + why@)],
    };
    let both = match (opened, embedder) {
        (Ok(store), Ok(loaded)) => if loaded.dim > 0 {
            seq![same_space_said(store.same_space), coverage_said(store.pending)]
        } else {
            Seq::<Said>::empty()
        },
        _ => Seq::<Said>::empty(),
    };
    database + seq![embedder_said(embedder)] + both
}

/// The schema's line.
fn schema_line(schema: Result<u64, String>) -> (line: Line)
    ensures
        line@ == schema_said(schema),
{
    match schema {
        Ok(version) => {
            let version = to_decimal(version);
            Line::new(Mark::Passed, "schema", "v".to_owned().concat(version.as_str()))
        },
        Err(why) => Line::new(Mark::Failed, "schema", why),
    }
}

/// The scratch record's line.
fn roundtrip_line(roundtrip: Result<(), String>) -> (line: Line)
    ensures
        line@ == roundtrip_said(roundtrip),
{
    let name = "write/read roundtrip";
    match roundtrip {
        Ok(_) => Line::new(
            Mark::Passed,
            name,
            "scratch record created and removed".to_owned(),
        ),
        Err(why) => Line::new(Mark::Failed, name, why),
    }
}

/// The line on the embedder beside the store.
fn same_space_line(same_space: Result<(), String>) -> (line: Line)
    ensures
        line@ == same_space_said(same_space),
{
    let name = "embedder vs store";
    match same_space {
        Ok(_) => Line::new(Mark::Passed, name, "same model and width".to_owned()),
        Err(why) => Line::new(Mark::Failed, name, why),
    }
}

/// The database half of the report: open, migrate, write and read back; then
/// the embedder.
pub fn store_lines(
    db_url: &str,
    opened: Result<OpenStore, String>,
    embedder: &Result<Loaded, String>,
) -> (lines: Vec<Line>)
    ensures
        said(lines@) == store_said(db_url@, opened, *embedder),
{
    let mut lines: Vec<Line> = Vec::new();
    match opened {
        Ok(store) => {
            lines.push(Line::new(Mark::Passed, "database open", db_url.to_owned()));
            lines.push(schema_line(store.schema));
            lines.push(roundtrip_line(store.roundtrip));
            lines.push(Check { name: "documents", outcome: store.documents }.line());
            lines.push(embedder_line(embedder));
            match embedder {
                Ok(loaded) => {
                    if loaded.dim > 0 {
                        lines.push(same_space_line(store.same_space));
                        lines.push(
                            Check {
                                name: "vector coverage",
                                outcome: vector_coverage(store.pending),
                            }.line(),
                        );
                    }
                },
                Err(_) => {},
            }
        },
        Err(why) => {
            let detail = db_url.to_owned().concat(": ").concat(why.as_str());
            lines.push(Line::new(Mark::Failed, "database open", detail));
            lines.push(embedder_line(embedder));
        },
    }
    assert(said(lines@) =~= store_said(db_url@, opened, *embedder));
    lines
}

/// How many of some lines tell of a failure.
pub open spec fn failed(lines: Seq<Said>) -> nat
    decreases lines.len(),
{
    if lines.len() == 0 {
        0
    } else {
        failed(lines.drop_last()) + (if lines.last().0 == Mark::Failed {
            1nat
        } else {
            0
        })
    }
}

/// How many of the lines tell of a failure.
pub fn failures(lines: &[Line]) -> (count: usize)
    ensures
        count == failed(said(lines@)),
{
    let mut count: usize = 0;
    let mut i: usize = 0;
    while i < lines.len()
        invariant
            i <= lines@.len(),
            count <= i,
            count == failed(said(lines@).take(i as int)),
        decreases lines@.len() - i,
    {
        assert(said(lines@).take(i + 1).drop_last() =~= said(lines@).take(i as int));
        match lines[i].mark {
            Mark::Failed => {
                count += 1;
            },
            _ => {},
        }
        i += 1;
    }
    assert(said(lines@).take(lines@.len() as int) =~= said(lines@));
    count
}

/// How the report ends: its last line, or, when a line told of a failure, the
/// error the process exits with.
///
/// # Errors
/// When any line told of a failure.
pub fn finish(lines: &[Line]) -> (end: Result<&'static str, String>)
    ensures
        match end {
            Ok(line) => failed(said(lines@)) == 0 && line@ == ALL_PASSED@,
            Err(message) => failed(said(lines@)) > 0 && message@ == "doctor: "@ + decimal(
                failed(said(lines@)),
            ) + " check(s) failed"@,
        },
{
    let count = failures(lines);
    if count == 0 {
        Ok(ALL_PASSED)
    } else {
        let number = to_decimal(count as u64);
        Err("doctor: ".to_owned().concat(number.as_str()).concat(" check(s) failed"))
    }
}

/// The exit status is good exactly when every line passed or was skipped, so
/// the report doubles as a setup gate.
pub proof fn the_report_is_a_gate(lines: Seq<Said>)
    ensures
        failed(lines) == 0 <==> forall|i: int|
            0 <= i < lines.len() ==> (#[trigger] lines[i]).0 != Mark::Failed,
    decreases lines.len(),
{
    if lines.len() > 0 {
        let front = lines.drop_last();
        the_report_is_a_gate(front);
        if failed(lines) == 0 {
            assert forall|i: int| 0 <= i < lines.len() implies (#[trigger] lines[i]).0
                != Mark::Failed by {
                if i < lines.len() - 1 {
                    assert(front[i] == lines[i]);
                }
            }
        } else if failed(front) != 0 {
            let i = choose|i: int|
                0 <= i < front.len() && (#[trigger] front[i]).0 == Mark::Failed;
            assert(lines[i].0 == Mark::Failed);
        } else {
            assert(lines[lines.len() - 1].0 == Mark::Failed);
        }
    }
}

/// With a daemon running the report skips two lines and is healthy: nothing
/// about a daemon that answers fails, so only the data dir and the embedder
/// can.
pub proof fn a_running_daemon_is_healthy(
    socket: Seq<char>,
    before: Said,
    overrides: Said,
    embedder: Result<Loaded, String>,
)
    requires
        before.0 != Mark::Failed,
        overrides.0 == Mark::Passed,
        embedder is Ok,
    ensures
        failed(seq![before, overrides] + daemon_said(socket) + seq![embedder_said(embedder)]) == 0,
        daemon_said(socket).filter(|line: Said| line.0 == Mark::Skipped).len() == 2,
{
    the_report_is_a_gate(seq![before, overrides] + daemon_said(socket) + seq![embedder_said(embedder)]);
    let skipped = |line: Said| line.0 == Mark::Skipped;
    let lines = daemon_said(socket);
    reveal_with_fuel(Seq::filter, 4);
    assert(lines.drop_last().drop_last().drop_last() =~= Seq::empty());
    assert(lines.filter(skipped).len() == 2);
}

/// The line tells of something that only the open store can answer.
pub open spec fn about_store(line: Said) -> bool {
    ||| line.1 == "database open"@
    ||| line.1 == "schema"@
    ||| line.1 == "write/read roundtrip"@
    ||| line.1 == "documents"@
    ||| line.1 == "embedder vs store"@
    ||| line.1 == "vector coverage"@
}

/// The daemon, the lock and the embedder are not the store.
proof fn lemma_other_names(line: Said)
    requires
        line.1 == "shared daemon"@ || line.1 == "single-writer lock"@ || line.1
            == "database + schema"@ || line.1 == "embedder"@,
    ensures
        !about_store(line),
{
    reveal_strlit("shared daemon");
    reveal_strlit("single-writer lock");
    reveal_strlit("database + schema");
    reveal_strlit("embedder");
    reveal_strlit("database open");
    reveal_strlit("schema");
    reveal_strlit("write/read roundtrip");
    reveal_strlit("documents");
    reveal_strlit("embedder vs store");
    reveal_strlit("vector coverage");
    assert("shared daemon"@.len() == 13 && "single-writer lock"@.len() == 18);
    assert("database + schema"@.len() == 17 && "embedder"@.len() == 8);
    assert("database open"@.len() == 13 && "schema"@.len() == 6 && "documents"@.len() == 9);
    assert("write/read roundtrip"@.len() == 20 && "embedder vs store"@.len() == 17);
    assert("vector coverage"@.len() == 15);
    assert("shared daemon"@[0] == 's' && "database open"@[0] == 'd');
    assert("database + schema"@[0] == 'd' && "embedder vs store"@[0] == 'e');
}

/// The store is looked at exactly where no daemon holds it: a report that stops
/// at a daemon, with the embedder behind it, holds no line about the store, and
/// a report that goes on holds the line on opening it, first.
pub proof fn a_store_that_a_daemon_holds_is_not_opened(
    shared: bool,
    live: Option<Seq<char>>,
    embedder: Result<Loaded, String>,
    db_url: Seq<char>,
    opened: Result<OpenStore, String>,
)
    ensures
        probe_said(shared, live).1 <==> !(shared && live is Some),
        !probe_said(shared, live).1 ==> forall|i: int|
            0 <= i < 4 ==> !about_store(
                #[trigger] probe_said(shared, live).0.push(embedder_said(embedder))[i],
            ),
        !probe_said(shared, live).1 ==> probe_said(shared, live).0.len() == 3,
        about_store(store_said(db_url, opened, embedder)[0]),
{
    if !probe_said(shared, live).1 {
        let lines = probe_said(shared, live).0.push(embedder_said(embedder));
        assert forall|i: int| 0 <= i < 4 implies !about_store(#[trigger] lines[i]) by {
            lemma_other_names(lines[i]);
        }
    }
}

/// A lock that somebody else holds ends the report without a line about the
/// store.
pub proof fn a_store_behind_a_refused_lock_is_not_opened(lock: WriterLock)
    ensures
        !about_store(lock_said(lock)),
        lock is Refused <==> lock_said(lock).0 == Mark::Failed,
{
    lemma_other_names(lock_said(lock));
}

/// Each line counts once, and only where it failed.
pub proof fn every_failed_line_counts(lines: Seq<Said>, line: Said)
    ensures
        failed(Seq::empty()) == 0,
        line.0 == Mark::Failed ==> failed(lines.push(line)) == failed(lines) + 1,
        line.0 != Mark::Failed ==> failed(lines.push(line)) == failed(lines),
{
    assert(lines.push(line).drop_last() =~= lines);
}

/// The checks of a store that all came out well.
pub open spec fn all_well(opened: Result<OpenStore, String>, embedder: Result<Loaded, String>) -> bool {
    match (opened, embedder) {
        (Ok(store), Ok(loaded)) => store.schema is Ok && store.roundtrip is Ok && store.documents
            is Ok && (loaded.dim > 0 ==> store.same_space is Ok && store.pending == Ok::<
            u64,
            String,
        >(0)),
        _ => false,
    }
}

/// The doctor finds nothing wrong with a store exactly where every check came
/// out well; a row without a vector is wrong where there is a model to embed
/// it.
pub proof fn a_store_is_healthy_where_every_check_is(
    db_url: Seq<char>,
    opened: Result<OpenStore, String>,
    embedder: Result<Loaded, String>,
)
    ensures
        failed(store_said(db_url, opened, embedder)) == 0 <==> all_well(opened, embedder),
{
    let lines = store_said(db_url, opened, embedder);
    the_report_is_a_gate(lines);
    match opened {
        Ok(store) => {
            assert(lines[1] == schema_said(store.schema));
            assert(lines[2] == roundtrip_said(store.roundtrip));
            assert(lines[3] == outcome_said("documents"@, store.documents));
            assert(lines[4] == embedder_said(embedder));
            if let Ok(loaded) = embedder {
                if loaded.dim > 0 {
                    assert(lines[5] == same_space_said(store.same_space));
                    assert(lines[6] == coverage_said(store.pending));
                }
            }
        },
        Err(why) => {
            assert(lines[0].0 == Mark::Failed);
        },
    }
}

/// What is wrong is said where it is: each failed check has a line of its own,
/// with the reason as it was given.
pub proof fn every_reason_is_reported(
    db_url: Seq<char>,
    opened: Result<OpenStore, String>,
    embedder: Result<Loaded, String>,
)
    ensures
        opened matches Err(why) ==> store_said(db_url, opened, embedder).contains(
            (Mark::Failed, "database open"@, db_url + ": "@ + why@),
        ),
        embedder matches Err(why) ==> store_said(db_url, opened, embedder).contains(
            (Mark::Failed, "embedder"@, why@),
        ),
        opened matches Ok(store) ==> {
            &&& store_said(db_url, opened, embedder).contains(
                (Mark::Passed, "database open"@, db_url),
            )
            &&& store.schema matches Err(why) ==> store_said(db_url, opened, embedder).contains(
                (Mark::Failed, "schema"@, why@),
            )
            &&& store.schema matches Ok(version) ==> store_said(
                db_url,
                opened,
                embedder,
            ).contains((Mark::Passed, "schema"@, "v"@ + decimal(version as nat)))
            &&& store.roundtrip matches Err(why) ==> store_said(
                db_url,
                opened,
                embedder,
            ).contains((Mark::Failed, "write/read roundtrip"@, why@))
            &&& store.roundtrip is Ok ==> store_said(db_url, opened, embedder).contains(
                (
                    Mark::Passed,
                    "write/read roundtrip"@,
                    "scratch record created and removed"@,
                ),
            )
            &&& store.documents matches Err(why) ==> store_said(
                db_url,
                opened,
                embedder,
            ).contains((Mark::Failed, "documents"@, why@))
            &&& store.documents matches Ok(detail) ==> store_said(
                db_url,
                opened,
                embedder,
            ).contains((Mark::Passed, "documents"@, detail@))
            &&& (embedder matches Ok(loaded) && loaded.dim > 0) ==> {
                &&& store.same_space matches Err(why) ==> store_said(
                    db_url,
                    opened,
                    embedder,
                ).contains((Mark::Failed, "embedder vs store"@, why@))
                &&& store.same_space is Ok ==> store_said(db_url, opened, embedder).contains(
                    (Mark::Passed, "embedder vs store"@, "same model and width"@),
                )
                &&& store.pending == Ok::<u64, String>(0) ==> store_said(
                    db_url,
                    opened,
                    embedder,
                ).contains((Mark::Passed, "vector coverage"@, "every row carries a vector"@))
                &&& store.pending matches Err(why) ==> store_said(
                    db_url,
                    opened,
                    embedder,
                ).contains((Mark::Failed, "vector coverage"@, why@))
            }
        },
{
    let lines = store_said(db_url, opened, embedder);
    match opened {
        Ok(store) => {
            assert(lines[0] == (Mark::Passed, "database open"@, db_url));
            assert(lines[1] == schema_said(store.schema));
            assert(lines[2] == roundtrip_said(store.roundtrip));
            assert(lines[3] == outcome_said("documents"@, store.documents));
            assert(lines[4] == embedder_said(embedder));
            if let Ok(loaded) = embedder {
                if loaded.dim > 0 {
                    assert(lines[5] == same_space_said(store.same_space));
                    assert(lines[6] == coverage_said(store.pending));
                }
            }
        },
        Err(why) => {
            assert(lines[0] == (Mark::Failed, "database open"@, db_url + ": "@ + why@));
            assert(lines[1] == embedder_said(embedder));
        },
    }
}

/// Rows without a vector are counted, and the way to embed them is named.
pub proof fn rows_without_a_vector_are_counted(pending: u64, why: String)
    ensures
        pending == 0 ==> coverage(Ok(pending)) == Ok::<Seq<char>, Seq<char>>(
            "every row carries a vector"@,
        ),
        pending > 0 ==> coverage(Ok(pending)) == Err::<Seq<char>, Seq<char>>(
            decimal(pending as nat)
                + " row(s) carry no vector, so a vector recall cannot reach them; run `agmem reindex`"@,
        ),
        coverage(Err(why)) == Err::<Seq<char>, Seq<char>>(why@),
{
}

/// Every registered space is named with its count.
pub proof fn every_space_is_counted(spaces: Seq<(String, u64)>, i: int)
    requires
        0 <= i < spaces.len(),
    ensures
        occurs(counted(spaces), spaces[i].0@ + ": "@ + decimal(spaces[i].1 as nat)),
{
    let parts = spaces.map_values(|space: (String, u64)| space_count(space));
    every_joined_text_occurs(parts, ", "@, i);
    assert(parts[i] == space_count(spaces[i]));
}

/// An embedder without vectors is said to have none, and one that did not load
/// fails with its reason.
pub proof fn an_embedder_without_vectors_is_said_to_have_none(loaded: Loaded, why: String)
    ensures
        loaded.dim == 0 ==> embedder_said(Ok(loaded)) == (
            Mark::Passed,
            "embedder"@,
            "none (test-only, no vectors)"@,
        ),
        embedder_said(Err(why)) == (Mark::Failed, "embedder"@, why@),
{
}

/// A loaded model is named with its width and what it runs on.
pub proof fn a_loaded_model_is_named(loaded: Loaded)
    requires
        loaded.dim > 0,
    ensures
        embedder_said(Ok(loaded)).0 == Mark::Passed,
        occurs(
            embedder_said(Ok(loaded)).2,
            loaded.model_id@ + " ("@ + decimal(loaded.dim as nat) + "d"@,
        ),
        occurs(embedder_said(Ok(loaded)).2, loaded.accelerator@ + ")"@),
{
    let width = decimal(loaded.dim as nat);
    lemma_model_parts(loaded.model_id@, width, loaded.accelerator@);
}

proof fn lemma_model_parts(id: Seq<char>, width: Seq<char>, accelerator: Seq<char>)
    ensures
        ({
            let whole = id + " ("@ + width + "d, "@ + accelerator + ")"@;
            occurs(whole, id + " ("@ + width + "d"@) && occurs(whole, accelerator + ")"@)
        }),
{
    let whole = id + " ("@ + width + "d, "@ + accelerator + ")"@;
    let first = id + " ("@ + width + "d"@;
    assert("d, "@ =~= "d"@ + ", "@) by {
        reveal_strlit("d, ");
        reveal_strlit("d");
        reveal_strlit(", ");
    }
    let second = accelerator + ")"@;
    let none = Seq::<char>::empty();
    assert(whole =~= none + first + (", "@ + second));
    what_is_put_between_occurs(none, first, ", "@ + second);
    assert(whole =~= (first + ", "@) + second + none);
    what_is_put_between_occurs(first + ", "@, second, none);
}

/// A serving daemon is reported with its socket, and what it holds is skipped;
/// a lock that is held passes, one that a server keeps is skipped, and one that
/// is refused fails with its reason.
pub proof fn a_lock_is_reported_as_it_was_found(socket: Seq<char>, why: String)
    ensures
        daemon_said(socket).len() == 3,
        daemon_said(socket)[0] == (Mark::Passed, "shared daemon"@, "serving "@ + socket),
        daemon_said(socket)[1] == (
            Mark::Skipped,
            "single-writer lock"@,
            "the daemon holds it"@,
        ),
        daemon_said(socket)[2] == (
            Mark::Skipped,
            "database + schema"@,
            "the daemon checked these when it started; its log has the result"@,
        ),
        ends_with(daemon_said(socket)[0].2, socket),
        lock_said(WriterLock::Held) == (
            Mark::Passed,
            "single-writer lock"@,
            "held by this process"@,
        ),
        lock_said(WriterLock::Remote) == (
            Mark::Skipped,
            "single-writer lock"@,
            "remote engine, DB server is the boundary"@,
        ),
        lock_said(WriterLock::Refused(why)) == (Mark::Failed, "single-writer lock"@, why@),
        absent_said() == (
            Mark::Passed,
            "shared daemon"@,
            "not running; the next session starts one"@,
        ),
{
    a_sum_starts_and_ends_with_its_parts("serving "@, socket);
}

/// Where nothing is shared there is no daemon to report, and the store is
/// opened; where one serves, it is reported and the store is left to it.
pub proof fn a_daemon_is_reported_where_one_could_be(socket: Seq<char>, live: Option<Seq<char>>)
    ensures
        probe_said(false, live) == (Seq::<Said>::empty(), true),
        probe_said(true, Some(socket)) == (daemon_said(socket), false),
        probe_said(true, None) == (seq![absent_said()], true),
{
}

/// Every check's detail starts in one column, but for the line on the checks
/// that a daemon made.
pub proof fn names_stand_in_one_column(name: Seq<char>)
    ensures
        name != "database + schema"@ ==> column(name) == 21,
        name == "database + schema"@ ==> column(name) == 22,
{
}

} // verus!
