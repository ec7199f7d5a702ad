//! Re-embedding a store into the configured model's vector space.
//!
//! Two doors onto one loop. The drain is the background one: the process that
//! holds the store finishes the rows while it serves. `agmem reindex` is the
//! deliberate one: with no session attached, it re-embeds everything now and
//! exits. Both record the new space before the first vector, so a run that is
//! interrupted resumes rather than starts over: the rows without a vector are
//! the only record that it is unfinished.

use vstd::prelude::*;

use crate::server::args::ReindexArgs;
use crate::server::config::{same_but_session, Config};
use crate::server::startup::Recorded;
use crate::text::number::{decimal, to_decimal};

verus! {

/// Passages per embed call in the offline pass.
pub const BATCH: usize = 128;

/// Passages per embed call in the background drain. Small on purpose: a live
/// query that arrives mid-batch waits for the batch ahead of it.
pub const DRAIN_BATCH: usize = 16;

/// How long the drain waits after a failed batch before it tries again, in
/// seconds.
pub const DRAIN_RETRY_SECS: u64 = 5;

/// Consecutive failed batches after which the drain stops and leaves the rest
/// to `agmem reindex`.
pub const DRAIN_GIVE_UP: u32 = 5;

/// What one run did.
#[derive(Debug, PartialEq, Eq)]
pub struct Report {
    /// The model the store now belongs to.
    pub model: String,
    /// Its width.
    pub dim: u64,
    /// Rows this run gave a vector to.
    pub embedded: usize,
    /// Whether this run moved the store into another vector space, as opposed
    /// to finishing one that an interrupted run left half-done.
    pub moved: bool,
}

/// The configuration a run works under: `--model` on the subcommand names the
/// space to move into for this run only; without it the configured model is
/// the target.
pub fn target(cfg: &Config, args: &ReindexArgs) -> (target: Config)
    ensures
        target.model == (match args.model {
            Some(model) => model,
            None => cfg.model,
        }),
        same_but_session(target, (Config { model: target.model, ..*cfg })),
        target.space == cfg.space,
        target.pool == cfg.pool,
        target.max_k == cfg.max_k,
        target.tool_desc@ == cfg.tool_desc@,
{
    let mut target = cfg.clone();
    match args.model {
        Some(model) => {
            target.model = model;
        },
        None => {},
    }
    target
}

/// Why a run refuses while a daemon serves the store: it needs the store to
/// itself.
pub fn busy(socket: &str, owner: Option<&str>) -> (message: String)
    ensures
        ({
            let pid = match owner {
                Some(pid) => pid@,
                None => "unknown"@,
            };
            message@ == "a daemon is serving "@ + socket@ + " (pid "@ + pid
                + "); reindex needs the store to itself. End the agmem sessions — the daemon exits after AGMEM_IDLE_TIMEOUT — or stop pid "@
                + pid
                + "; the next session restarts it and finishes any rows this pass leaves"@
        }),
{
    let pid: &str = match owner {
        Some(pid) => pid,
        None => "unknown",
    };
    "a daemon is serving ".to_owned().concat(socket).concat(" (pid ").concat(pid).concat(
        "); reindex needs the store to itself. End the agmem sessions — the daemon exits after AGMEM_IDLE_TIMEOUT — or stop pid ",
    ).concat(pid).concat("; the next session restarts it and finishes any rows this pass leaves")
}

/// Whether a run moves the store into another space: true of every record but
/// the embedder's own.
///
/// # Errors
/// When the embedder has no vectors, and so no space to move into.
pub fn moves(dim: u64, recorded: &Recorded) -> (result: Result<bool, String>)
    ensures
        match result {
            Ok(moves) => dim > 0 && moves == (*recorded !is Same),
            Err(message) => dim == 0 && message@
                == "--embedder none produces no vectors, so there is no space to reindex into; BM25-only mode already opens any store, whatever embedded it"@,
        },
{
    if dim == 0 {
        return Err(
            "--embedder none produces no vectors, so there is no space to reindex into; BM25-only mode already opens any store, whatever embedded it".to_owned(),
        );
    }
    match recorded {
        Recorded::Same => Ok(false),
        _ => Ok(true),
    }
}

/// The offline pass over the rows without a vector.
#[derive(Debug, PartialEq, Eq)]
pub struct Pass {
    total: usize,
    remaining: usize,
}

impl Pass {
    #[verifier::type_invariant]
    spec fn valid(self) -> bool {
        self.remaining <= self.total
    }

    /// Rows the pass began with.
    pub closed spec fn total(self) -> nat {
        self.total as nat
    }

    /// Rows that are left.
    pub closed spec fn left(self) -> nat {
        self.remaining as nat
    }

    /// A pass over `total` rows.
    pub fn new(total: usize) -> (pass: Self)
        ensures
            pass.total() == total,
            pass.left() == total,
    {
        Pass { total, remaining: total }
    }

    /// Whether another batch is due.
    pub fn wants_batch(&self) -> (wants: bool)
        ensures
            wants == (self.left() > 0),
    {
        self.remaining > 0
    }

    /// Rows that were given a vector.
    pub fn embedded(&self) -> (embedded: usize)
        ensures
            embedded == self.total() - self.left(),
    {
        proof {
            use_type_invariant(self);
        }
        self.total - self.remaining
    }

    /// Take the count of rows that a batch left, and say how far the pass is.
    ///
    /// The count is the progress and the check: an update of a row that has
    /// gone is a silent no-op, so a batch that changed nothing would otherwise
    /// come back forever.
    ///
    /// # Errors
    /// When the batch left as many rows as there were, or more.
    pub fn after_batch(&mut self, left: usize) -> (progress: Result<String, String>)
        ensures
            final(self).total() == old(self).total(),
            match progress {
                Ok(line) => {
                    &&& left < old(self).left()
                    &&& final(self).left() == left
                    &&& line@ == "  ..    re-embedding         "@ + decimal(
                        (old(self).total() - left) as nat,
                    ) + "/"@ + decimal(old(self).total()) + " rows"@
                },
                Err(message) => {
                    &&& left >= old(self).left()
                    &&& final(self).left() == old(self).left()
                    &&& message@ == "a batch left "@ + decimal(left as nat) + " of "@ + decimal(
                        old(self).left(),
                    ) + " row(s) still pending; refusing to loop"@
                },
            },
    {
        proof {
            use_type_invariant(&*self);
        }
        if left >= self.remaining {
            let count = to_decimal(left as u64);
            let before = to_decimal(self.remaining as u64);
            return Err(
                "a batch left ".to_owned().concat(count.as_str()).concat(" of ").concat(
                    before.as_str(),
                ).concat(" row(s) still pending; refusing to loop"),
            );
        }
        self.remaining = left;
        let done = to_decimal((self.total - left) as u64);
        let total = to_decimal(self.total as u64);
        Ok(
            "  ..    re-embedding         ".to_owned().concat(done.as_str()).concat("/").concat(
                total.as_str(),
            ).concat(" rows"),
        )
    }
}

/// The counts that the batches of a pass leave, each taken without complaint:
/// no count follows one that was zero, and each is below the one before it.
pub open spec fn taken(remaining: nat, lefts: Seq<nat>) -> bool
    decreases lefts.len(),
{
    lefts.len() == 0 || (lefts[0] < remaining && taken(lefts[0], lefts.skip(1)))
}

/// A pass ends: it takes no more batches than it has rows, whatever the
/// batches leave.
pub proof fn a_pass_ends(remaining: nat, lefts: Seq<nat>)
    requires
        taken(remaining, lefts),
    ensures
        lefts.len() <= remaining,
    decreases lefts.len(),
{
    if lefts.len() > 0 {
        a_pass_ends(lefts[0], lefts.skip(1));
    }
}

/// What the report of a run says of the schema.
pub fn schema_line(version: u64) -> (line: String)
    ensures
        line@ == "  ok    schema               v"@ + decimal(version as nat),
{
    "  ok    schema               v".to_owned().concat(to_decimal(version).as_str())
}

/// What the report of a run says of the embedder: the model, its width, where
/// it runs, and its pinned revision where it has one.
pub fn embedder_line(
    model: &str,
    dim: u64,
    accelerator: &str,
    revision: Option<&str>,
) -> (line: String)
    ensures
        line@ == "  ok    embedder             "@ + model@ + " ("@ + decimal(dim as nat) + "d, "@
            + accelerator@ + (match revision {
            Some(revision) => ", rev "@ + revision@,
            None => Seq::empty(),
        }) + ")"@,
{
    let dim = to_decimal(dim);
    let line = "  ok    embedder             ".to_owned().concat(model).concat(" (").concat(
        dim.as_str(),
    ).concat("d, ").concat(accelerator);
    match revision {
        Some(revision) => {
            let pinned = ", rev ".to_owned().concat(revision);
            line.concat(pinned.as_str()).concat(")")
        },
        None => {
            assert(line@ + Seq::<char>::empty() =~= line@);
            line.concat(")")
        },
    }
}

/// What the report of a run says of the vector space.
pub fn space_line(report: &Report) -> (line: String)
    ensures
        line@ == "  ok    vector space         "@ + (if report.moved {
            "moved to "@
        } else {
            "already "@
        }) + report.model@ + " ("@ + decimal(report.dim as nat) + "d)"@,
{
    let verb: &str = if report.moved {
        "moved to "
    } else {
        "already "
    };
    let dim = to_decimal(report.dim);
    "  ok    vector space         ".to_owned().concat(verb).concat(report.model.as_str()).concat(
        " (",
    ).concat(dim.as_str()).concat("d)")
}

/// The last line of a run.
pub fn summary(report: &Report) -> (line: String)
    ensures
        line@ == "reindex: "@ + decimal(report.embedded as nat) + " row(s) re-embedded"@,
{
    let count = to_decimal(report.embedded as u64);
    "reindex: ".to_owned().concat(count.as_str()).concat(" row(s) re-embedded")
}

/// What a background batch came to.
#[derive(Debug, Clone, Copy, PartialEq, Eq, Structural)]
pub enum Batch {
    /// It was written, and this many rows are left without a vector.
    Left(usize),
    /// It failed.
    Failed,
}

/// What the drain does next.
#[derive(Debug, Clone, Copy, PartialEq, Eq, Structural)]
pub enum Next {
    /// Report the count and stop: every row carries a vector.
    Done,
    /// Report the count and go on with the next batch.
    Continue(usize),
    /// Wait, then try again.
    Retry,
    /// Wait, then stop with the count where it is, so that the notice stays up
    /// and `agmem reindex` can finish.
    GiveUp,
}

/// Where the background drain stands.
#[derive(Debug, Clone, Copy, PartialEq, Eq, Structural)]
pub struct Drain {
    /// Failed batches in a row.
    pub failures: u32,
    /// Rows without a vector after the last batch that helped.
    pub previous: usize,
}

/// What the drain does after a batch.
pub open spec fn next_of(drain: Drain, batch: Batch) -> Next {
    match batch {
        Batch::Left(0usize) => Next::Done,
        Batch::Left(left) if left < drain.previous => Next::Continue(left),
        _ => if drain.failures + 1 >= DRAIN_GIVE_UP {
            Next::GiveUp
        } else {
            Next::Retry
        },
    }
}

/// Where a batch leaves the drain.
pub open spec fn drain_after(drain: Drain, batch: Batch) -> Drain {
    match batch {
        Batch::Left(left) if left < drain.previous || left == 0 => Drain {
            failures: 0,
            previous: left,
        },
        _ => Drain { failures: (drain.failures + 1) as u32, previous: drain.previous },
    }
}

/// The drain goes on after `next`.
pub open spec fn goes_on(next: Next) -> bool {
    next is Continue || next is Retry
}

impl Drain {
    /// A drain over `pending` rows.
    pub fn new(pending: usize) -> (drain: Self)
        ensures
            drain.failures == 0,
            drain.previous == pending,
    {
        Drain { failures: 0, previous: pending }
    }

    /// Take what a batch came to.
    ///
    /// A batch that left as many rows as there were counts as failed: rows
    /// written while the drain runs already carry a vector, so it changed
    /// nothing.
    pub fn after_batch(&mut self, batch: Batch) -> (next: Next)
        requires
            old(self).failures < DRAIN_GIVE_UP,
        ensures
            *final(self) == drain_after(*old(self), batch),
            next == next_of(*old(self), batch),
            goes_on(next) ==> final(self).failures < DRAIN_GIVE_UP,
    {
        match batch {
            Batch::Left(left) => {
                if left < self.previous || left == 0 {
                    self.failures = 0;
                    self.previous = left;
                    return if left == 0 {
                        Next::Done
                    } else {
                        Next::Continue(left)
                    };
                }
            },
            Batch::Failed => {},
        }
        self.failures = self.failures + 1;
        if self.failures >= DRAIN_GIVE_UP {
            Next::GiveUp
        } else {
            Next::Retry
        }
    }
}

/// The drain goes on through all of these batches.
pub open spec fn keeps_on(drain: Drain, batches: Seq<Batch>) -> bool
    decreases batches.len(),
{
    batches.len() == 0 || (goes_on(next_of(drain, batches[0])) && keeps_on(
        drain_after(drain, batches[0]),
        batches.skip(1),
    ))
}

/// The drain ends, whatever its batches come to: it tries no row more often
/// than it is ready to fail in a row.
pub proof fn a_drain_ends(drain: Drain, batches: Seq<Batch>)
    requires
        drain.failures < DRAIN_GIVE_UP,
        keeps_on(drain, batches),
    ensures
        batches.len() <= DRAIN_GIVE_UP * drain.previous + DRAIN_GIVE_UP - drain.failures - 1,
    decreases batches.len(),
{
    if batches.len() > 0 {
        a_drain_ends(drain_after(drain, batches[0]), batches.skip(1));
    }
}

/// One failure does not stop the drain, and neither do four: any batch that
/// helps clears the count. Only failures in a row make it give up.
pub proof fn only_failures_in_a_row_stop_the_drain(drain: Drain, batch: Batch)
    requires
        drain.failures < DRAIN_GIVE_UP,
        next_of(drain, batch) == Next::GiveUp,
    ensures
        drain.failures == DRAIN_GIVE_UP - 1,
        batch matches Batch::Left(left) ==> left >= drain.previous,
{
}

/// A batch that takes rows off keeps the drain going from a clean slate, one
/// that leaves none ends it, and one that fails or takes nothing is tried
/// again, four times in a row, before the drain gives up.
pub proof fn progress_keeps_the_drain_going(drain: Drain, left: usize, batch: Batch)
    requires
        drain.failures < DRAIN_GIVE_UP,
    ensures
        next_of(drain, Batch::Left(0)) == Next::Done,
        0 < left < drain.previous ==> next_of(drain, Batch::Left(left)) == Next::Continue(left)
            && drain_after(drain, Batch::Left(left)) == (Drain { failures: 0, previous: left }),
        (batch == Batch::Failed || (batch == Batch::Left(left) && left >= drain.previous && left
            > 0)) ==> drain_after(drain, batch) == (Drain {
            failures: (drain.failures + 1) as u32,
            previous: drain.previous,
        }) && next_of(drain, batch) == if drain.failures < 4 {
            Next::Retry
        } else {
            Next::GiveUp
        },
{
}

} // verus!
