//! The shell-facing surface: runs that do one thing, print it, and exit.

use vstd::prelude::*;

use crate::embed::model::Model;
use crate::text::chars::{copy_text, copy_texts};

verus! {

/// Which hook event a payload belongs to.
#[derive(Debug, Clone, Copy, PartialEq, Eq, Structural)]
pub enum HookEvent {
    /// SessionStart: print the memory briefing as `additionalContext`.
    SessionStart,
    /// PostToolUse: log recalls and writes; nudge at seams.
    PostToolUse,
    /// Stop: nudge once if the session recalled memory and wrote none.
    Stop,
}

/// Which event `agmem hook` is answering.
#[derive(Debug, PartialEq, Eq)]
pub struct HookArgs {
    pub event: HookEvent,
}

/// What `agmem context` passes through to the `context` tool, one flag per
/// tool parameter.
#[derive(Debug, PartialEq, Eq)]
pub struct ContextArgs {
    /// What the session is about; aims the Relevant section.
    pub query: Option<String>,
    /// Where to look: `current`, `user`, `all`, or a space name.
    pub space: Option<String>,
    /// How many characters the block may take.
    pub budget_chars: Option<u32>,
}

impl Default for ContextArgs {
    fn default() -> (args: Self)
        ensures
            args.query is None,
            args.space is None,
            args.budget_chars is None,
    {
        ContextArgs { query: None, space: None, budget_chars: None }
    }
}

/// What `agmem reindex` takes.
#[derive(Debug, PartialEq, Eq)]
pub struct ReindexArgs {
    /// The model to move into, for this run only.
    pub model: Option<Model>,
}

/// What `agmem doc` does.
#[derive(Debug, PartialEq, Eq)]
pub struct DocArgs {
    pub verb: DocVerb,
}

/// The four document verbs.
#[derive(Debug, PartialEq, Eq)]
pub enum DocVerb {
    Put(DocPutArgs),
    Get(DocGetArgs),
    List(DocListArgs),
    Forget(DocForgetArgs),
}

/// Store a document.
#[derive(Debug, PartialEq, Eq)]
pub struct DocPutArgs {
    pub title: String,
    pub kind: String,
    pub tags: Vec<String>,
    pub mime: Option<String>,
    pub space: Option<String>,
}

/// Read a document.
#[derive(Debug, PartialEq, Eq)]
pub struct DocGetArgs {
    /// An id, or a title.
    pub reference: String,
    pub offset: Option<u64>,
    pub limit: Option<u64>,
    /// The content alone.
    pub raw: bool,
    pub space: Option<String>,
}

/// List a space's documents.
#[derive(Debug, PartialEq, Eq)]
pub struct DocListArgs {
    pub kinds: Vec<String>,
    pub tags: Vec<String>,
    pub space: Option<String>,
    pub json: bool,
}

/// Forget a document.
#[derive(Debug, PartialEq, Eq)]
pub struct DocForgetArgs {
    pub id: String,
    pub purge: bool,
    pub cascade: bool,
    pub space: Option<String>,
}

/// A run that does one thing, prints it, and exits, as opposed to the MCP
/// surface the flags configure.
#[derive(Debug, PartialEq, Eq)]
pub enum CliCommand {
    /// Print the session-start context block and exit.
    Context(ContextArgs),
    /// Answer a hook event: read the payload, print the reply, exit 0.
    Hook(HookArgs),
    /// Store, read, list or forget documents.
    Doc(DocArgs),
    /// Re-embed the store with the configured backend and exit.
    Reindex(ReindexArgs),
}

/// Two verbs ask for the same.
pub open spec fn same_verb(a: DocVerb, b: DocVerb) -> bool {
    match (a, b) {
        (DocVerb::Put(a), DocVerb::Put(b)) => a.title == b.title && a.kind == b.kind && a.tags@
            == b.tags@ && a.mime == b.mime && a.space == b.space,
        (DocVerb::Get(a), DocVerb::Get(b)) => a == b,
        (DocVerb::List(a), DocVerb::List(b)) => a.kinds@ == b.kinds@ && a.tags@ == b.tags@
            && a.space == b.space && a.json == b.json,
        (DocVerb::Forget(a), DocVerb::Forget(b)) => a == b,
        _ => false,
    }
}

/// Two commands ask for the same.
pub open spec fn same_command(a: CliCommand, b: CliCommand) -> bool {
    match (a, b) {
        (CliCommand::Context(a), CliCommand::Context(b)) => a == b,
        (CliCommand::Hook(a), CliCommand::Hook(b)) => a == b,
        (CliCommand::Doc(a), CliCommand::Doc(b)) => same_verb(a.verb, b.verb),
        (CliCommand::Reindex(a), CliCommand::Reindex(b)) => a == b,
        _ => false,
    }
}

impl Clone for DocVerb {
    fn clone(&self) -> (result: Self)
        ensures
            same_verb(result, *self),
    {
        match self {
            DocVerb::Put(args) => DocVerb::Put(
                DocPutArgs {
                    title: args.title.clone(),
                    kind: args.kind.clone(),
                    tags: copy_texts(&args.tags),
                    mime: copy_text(&args.mime),
                    space: copy_text(&args.space),
                },
            ),
            DocVerb::Get(args) => DocVerb::Get(
                DocGetArgs {
                    reference: args.reference.clone(),
                    offset: args.offset,
                    limit: args.limit,
                    raw: args.raw,
                    space: copy_text(&args.space),
                },
            ),
            DocVerb::List(args) => DocVerb::List(
                DocListArgs {
                    kinds: copy_texts(&args.kinds),
                    tags: copy_texts(&args.tags),
                    space: copy_text(&args.space),
                    json: args.json,
                },
            ),
            DocVerb::Forget(args) => DocVerb::Forget(
                DocForgetArgs {
                    id: args.id.clone(),
                    purge: args.purge,
                    cascade: args.cascade,
                    space: copy_text(&args.space),
                },
            ),
        }
    }
}

impl Clone for CliCommand {
    fn clone(&self) -> (result: Self)
        ensures
            same_command(result, *self),
    {
        match self {
            CliCommand::Context(args) => CliCommand::Context(
                ContextArgs {
                    query: copy_text(&args.query),
                    space: copy_text(&args.space),
                    budget_chars: args.budget_chars,
                },
            ),
            CliCommand::Hook(args) => CliCommand::Hook(HookArgs { event: args.event }),
            CliCommand::Doc(args) => CliCommand::Doc(DocArgs { verb: args.verb.clone() }),
            CliCommand::Reindex(args) => CliCommand::Reindex(ReindexArgs { model: args.model }),
        }
    }
}

/// A copied command is the command, with all it was given.
pub proof fn a_copied_command_is_the_command(a: CliCommand, b: CliCommand)
    requires
        same_command(a, b),
    ensures
        a matches CliCommand::Context(args) ==> b == CliCommand::Context(args),
        a matches CliCommand::Hook(args) ==> b == CliCommand::Hook(args),
        a matches CliCommand::Reindex(args) ==> b == CliCommand::Reindex(args),
        a matches CliCommand::Doc(args) ==> (b matches CliCommand::Doc(other) && match (
            args.verb,
            other.verb,
        ) {
            (DocVerb::Put(x), DocVerb::Put(y)) => x.title@ == y.title@ && x.kind@ == y.kind@
                && x.tags@ == y.tags@ && x.mime == y.mime && x.space == y.space,
            (DocVerb::Get(x), DocVerb::Get(y)) => x == y,
            (DocVerb::List(x), DocVerb::List(y)) => x.kinds@ == y.kinds@ && x.tags@ == y.tags@
                && x.space == y.space && x.json == y.json,
            (DocVerb::Forget(x), DocVerb::Forget(y)) => x == y,
            _ => false,
        }),
{
}

} // verus!
