//! How many texts reach a model at once.
//!
//! A caller's batch is sliced before it reaches the backend, so that between
//! slices the model is free and another session's query gets in. llama.cpp
//! takes its sequences in groups: a non-causal encoder needs every token of a
//! sequence in one physical batch.

use vstd::prelude::*;

verus! {

/// How many passages reach the backend per call.
pub const BATCH: usize = 128;

/// Longest input, in tokens; what the store's chunker is sized for.
pub const MAX_TOKENS: usize = 512;

/// Tokens one decode takes: the batch, the physical batch and the context are
/// all this size.
pub const BATCH_TOKENS: usize = 2048;

/// Sequences one decode may carry.
pub const MAX_SEQUENCES: usize = 64;

/// Some of the items of a list: from `start` up to `end`.
#[derive(Debug, Clone, Copy, PartialEq, Eq, Structural)]
pub struct Run {
    pub start: usize,
    pub end: usize,
}

/// The runs follow one another from `from` to `to`, none of them empty.
pub open spec fn tile(runs: Seq<Run>, from: int, to: int) -> bool
    decreases runs.len(),
{
    if runs.len() == 0 {
        from == to
    } else {
        &&& runs[0].start == from
        &&& from < runs[0].end
        &&& tile(runs.skip(1), runs[0].end as int, to)
    }
}

/// The items from `at` on, [`BATCH`] at a time.
pub open spec fn sliced(at: int, n: int) -> Seq<Run>
    decreases n - at,
{
    if at >= n {
        Seq::empty()
    } else {
        let end = if n - at > BATCH {
            at + BATCH
        } else {
            n
        };
        seq![Run { start: at as usize, end: end as usize }] + sliced(end, n)
    }
}

/// Slice a batch of `n` passages, [`BATCH`] at a time.
pub fn slices(n: usize) -> (runs: Vec<Run>)
    ensures
        runs@ == sliced(0, n as int),
{
    let mut runs: Vec<Run> = Vec::new();
    let mut at: usize = 0;
    while at < n
        invariant
            at <= n,
            runs@ + sliced(at as int, n as int) == sliced(0, n as int),
        decreases n - at,
    {
        let end: usize = if n - at > BATCH {
            at + BATCH
        } else {
            n
        };
        runs.push(Run { start: at, end });
        at = end;
    }
    runs
}

/// Slicing keeps every passage, in order, and no slice holds more than
/// [`BATCH`] of them.
pub proof fn slices_cover_the_batch(at: int, n: int)
    requires
        0 <= at <= n <= usize::MAX,
    ensures
        tile(sliced(at, n), at, n),
        forall|i: int|
            0 <= i < sliced(at, n).len() ==> (#[trigger] sliced(at, n)[i]).end - sliced(at, n)[i].start
                <= BATCH,
    decreases n - at,
{
    if at < n {
        let end = if n - at > BATCH {
            at + BATCH
        } else {
            n
        };
        slices_cover_the_batch(end, n);
        assert(sliced(at, n).skip(1) =~= sliced(end, n));
        assert forall|i: int| 0 <= i < sliced(at, n).len() implies (#[trigger] sliced(at, n)[i]).end
            - sliced(at, n)[i].start <= BATCH by {
            if i > 0 {
                assert(sliced(at, n)[i] == sliced(end, n)[i - 1]);
            }
        }
    }
}

/// The tokens of the sequences from `from` up to `to`.
pub open spec fn tokens_in(lengths: Seq<usize>, from: int, to: int) -> int
    decreases to - from,
{
    if from >= to {
        0
    } else {
        tokens_in(lengths, from, to - 1) + lengths[to - 1]
    }
}

/// The groups of the sequences from `from` on, where `from..at` is already in
/// one group: a sequence joins the group before it while the group keeps to
/// the budget of tokens and of sequences.
pub open spec fn grouped(lengths: Seq<usize>, from: int, at: int) -> Seq<Run>
    decreases lengths.len() - at,
{
    if at >= lengths.len() {
        if from < at {
            seq![Run { start: from as usize, end: at as usize }]
        } else {
            Seq::empty()
        }
    } else if from < at && (tokens_in(lengths, from, at) + lengths[at] > BATCH_TOKENS || at - from
        == MAX_SEQUENCES) {
        seq![Run { start: from as usize, end: at as usize }] + grouped(lengths, at, at + 1)
    } else {
        grouped(lengths, from, at + 1)
    }
}

/// Group sequences of these lengths so that each group fits one physical
/// batch, in order.
pub fn groups(lengths: &[usize]) -> (runs: Vec<Run>)
    ensures
        runs@ == grouped(lengths@, 0, 0),
{
    let mut runs: Vec<Run> = Vec::new();
    let mut from: usize = 0;
    let mut at: usize = 0;
    let mut held: usize = 0;
    while at < lengths.len()
        invariant
            from <= at <= lengths@.len(),
            held == tokens_in(lengths@, from as int, at as int),
            runs@ + grouped(lengths@, from as int, at as int) == grouped(lengths@, 0, 0),
        decreases lengths@.len() - at,
    {
        let next: usize = lengths[at];
        let full = held > BATCH_TOKENS || next > BATCH_TOKENS - held || at - from == MAX_SEQUENCES;
        if from < at && full {
            runs.push(Run { start: from, end: at });
            from = at;
            held = 0;
        }
        assert(tokens_in(lengths@, from as int, at + 1) == tokens_in(
            lengths@,
            from as int,
            at as int,
        ) + lengths@[at as int]);
        held += next;
        at += 1;
    }
    if from < at {
        runs.push(Run { start: from, end: at });
    }
    runs
}

/// Grouping keeps every sequence, in order; no group holds more sequences than
/// a decode may carry, and only a sequence that is over the budget of tokens by
/// itself makes a group that is.
pub proof fn groups_fit_the_batch(lengths: Seq<usize>, from: int, at: int)
    requires
        0 <= from <= at <= lengths.len() <= usize::MAX,
        at - from <= MAX_SEQUENCES,
        at - from <= 1 || tokens_in(lengths, from, at) <= BATCH_TOKENS,
    ensures
        tile(grouped(lengths, from, at), from, lengths.len() as int),
        forall|i: int|
            0 <= i < grouped(lengths, from, at).len() ==> {
                let run = #[trigger] grouped(lengths, from, at)[i];
                &&& run.end - run.start <= MAX_SEQUENCES
                &&& run.end - run.start == 1 || tokens_in(
                    lengths,
                    run.start as int,
                    run.end as int,
                ) <= BATCH_TOKENS
            },
    decreases lengths.len() - at,
{
    let all = grouped(lengths, from, at);
    if at >= lengths.len() {
        if from < at {
            assert(all.skip(1) =~= Seq::empty());
            assert(tile(all.skip(1), at, at));
        }
    } else if from < at && (tokens_in(lengths, from, at) + lengths[at] > BATCH_TOKENS || at - from
        == MAX_SEQUENCES) {
        groups_fit_the_batch(lengths, at, at + 1);
        assert(all.skip(1) =~= grouped(lengths, at, at + 1));
        assert forall|i: int| 0 <= i < all.len() implies {
            let run = #[trigger] all[i];
            &&& run.end - run.start <= MAX_SEQUENCES
            &&& run.end - run.start == 1 || tokens_in(lengths, run.start as int, run.end as int)
                <= BATCH_TOKENS
        } by {
            if i > 0 {
                assert(all[i] == grouped(lengths, at, at + 1)[i - 1]);
            }
        }
    } else {
        groups_fit_the_batch(lengths, from, at + 1);
    }
}

/// The shorter of [`MAX_TOKENS`] and the length a model was trained on.
pub fn truncate_to(trained: u32) -> (limit: usize)
    ensures
        limit == if trained < MAX_TOKENS {
            trained as int
        } else {
            MAX_TOKENS as int
        },
        limit <= 512 && limit <= trained && (limit == 512 || limit == trained),
{
    if (trained as usize) < MAX_TOKENS {
        trained as usize
    } else {
        MAX_TOKENS
    }
}

/// A sequence cut to `limit` tokens, with the end token kept last.
pub open spec fn cut(tokens: Seq<i32>, limit: int, eos: i32) -> Seq<i32> {
    if tokens.len() > limit {
        tokens.take(limit - 1).push(eos)
    } else {
        tokens
    }
}

/// Cut a sequence to `limit` tokens, with the end token kept last.
pub fn truncate(tokens: Vec<i32>, limit: usize, eos: i32) -> (result: Vec<i32>)
    requires
        limit > 0,
    ensures
        result@ == cut(tokens@, limit as int, eos),
        result@.len() <= limit,
{
    let mut tokens = tokens;
    if tokens.len() > limit {
        tokens.truncate(limit - 1);
        tokens.push(eos);
    }
    tokens
}

/// Texts cut for a model never make a group that is over the budget of tokens.
pub proof fn cut_sequences_always_fit(lengths: Seq<usize>)
    requires
        lengths.len() <= usize::MAX,
        forall|i: int| 0 <= i < lengths.len() ==> #[trigger] lengths[i] <= MAX_TOKENS,
    ensures
        forall|i: int|
            0 <= i < grouped(lengths, 0, 0).len() ==> tokens_in(
                lengths,
                (#[trigger] grouped(lengths, 0, 0)[i]).start as int,
                grouped(lengths, 0, 0)[i].end as int,
            ) <= BATCH_TOKENS,
{
    groups_fit_the_batch(lengths, 0, 0);
    let all = grouped(lengths, 0, 0);
    lemma_tiles_within(all, 0, lengths.len() as int);
    assert forall|i: int| 0 <= i < all.len() implies tokens_in(
        lengths,
        (#[trigger] all[i]).start as int,
        all[i].end as int,
    ) <= BATCH_TOKENS by {
        let run = all[i];
        if run.end - run.start == 1 {
            assert(tokens_in(lengths, run.start as int, run.start as int) == 0);
            assert(lengths[run.start as int] <= MAX_TOKENS);
        }
    }
}

proof fn lemma_tiles_within(runs: Seq<Run>, from: int, to: int)
    requires
        tile(runs, from, to),
        0 <= from,
    ensures
        from <= to,
        forall|i: int|
            0 <= i < runs.len() ==> from <= (#[trigger] runs[i]).start < runs[i].end <= to,
    decreases runs.len(),
{
    if runs.len() > 0 {
        let rest = runs.skip(1);
        lemma_tiles_within(rest, runs[0].end as int, to);
        assert forall|i: int| 0 <= i < runs.len() implies from <= (#[trigger] runs[i]).start
            < runs[i].end <= to by {
            if i > 0 {
                assert(runs[i] == rest[i - 1]);
            }
        }
    }
}

/// Every slice but the last is full, so that no model is called more often than
/// it has to be.
pub proof fn every_slice_but_the_last_is_full(at: int, n: int, i: int)
    requires
        0 <= at <= n <= usize::MAX,
        0 <= i < sliced(at, n).len() - 1,
    ensures
        sliced(at, n)[i].end - sliced(at, n)[i].start == 128,
    decreases n - at,
{
    if at < n {
        let end = if n - at > BATCH {
            at + BATCH
        } else {
            n
        };
        if i > 0 {
            every_slice_but_the_last_is_full(end, n, i - 1);
            assert(sliced(at, n)[i] == sliced(end, n)[i - 1]);
        }
    }
}

/// The tokens of a stretch are those of its parts together, and of one sequence
/// its length.
pub proof fn tokens_add_up(lengths: Seq<usize>, from: int, mid: int, to: int)
    requires
        0 <= from <= mid <= to <= lengths.len(),
    ensures
        tokens_in(lengths, from, to) == tokens_in(lengths, from, mid) + tokens_in(lengths, mid, to),
        from < lengths.len() ==> tokens_in(lengths, from, from + 1) == lengths[from],
        tokens_in(lengths, from, from) == 0,
    decreases to - mid,
{
    if from < lengths.len() {
        assert(tokens_in(lengths, from, from) == 0);
    }
    if mid < to {
        tokens_add_up(lengths, from, mid, to - 1);
    }
}

/// Groups are as large as a decode takes: where one ends, the next sequence
/// would have gone over the budget of tokens, or the group was full.
pub proof fn no_group_ends_early(lengths: Seq<usize>, from: int, at: int, i: int)
    requires
        0 <= from <= at <= lengths.len() <= usize::MAX,
        0 <= i < grouped(lengths, from, at).len() - 1,
    ensures
        ({
            let run = grouped(lengths, from, at)[i];
            &&& run.end < lengths.len()
            &&& grouped(lengths, from, at)[i + 1].start == run.end
            &&& tokens_in(lengths, run.start as int, run.end as int) + lengths[run.end as int]
                > 2048 || run.end - run.start == 64
        }),
    decreases lengths.len() - at,
{
    let all = grouped(lengths, from, at);
    if at < lengths.len() {
        if from < at && (tokens_in(lengths, from, at) + lengths[at] > BATCH_TOKENS || at - from
            == MAX_SEQUENCES) {
            let rest = grouped(lengths, at, at + 1);
            assert(all[i + 1] == rest[i]);
            if i > 0 {
                assert(all[i] == rest[i - 1]);
                no_group_ends_early(lengths, at, at + 1, i - 1);
            } else {
                lemma_first_group(lengths, at, at + 1);
            }
        } else {
            no_group_ends_early(lengths, from, at + 1, i);
        }
    }
}

proof fn lemma_first_group(lengths: Seq<usize>, from: int, at: int)
    requires
        0 <= from < at <= lengths.len() <= usize::MAX,
    ensures
        grouped(lengths, from, at).len() > 0,
        grouped(lengths, from, at)[0].start == from,
    decreases lengths.len() - at,
{
    if at < lengths.len() {
        if !(tokens_in(lengths, from, at) + lengths[at] > BATCH_TOKENS || at - from
            == MAX_SEQUENCES) {
            lemma_first_group(lengths, from, at + 1);
        }
    }
}

/// A sequence that fits is left alone; a longer one keeps its start and ends
/// with the end token.
pub proof fn a_cut_keeps_the_start_and_the_end_token(
    tokens: Seq<i32>,
    limit: int,
    eos: i32,
    i: int,
)
    requires
        limit > 0,
    ensures
        tokens.len() <= limit ==> cut(tokens, limit, eos) == tokens,
        tokens.len() > limit ==> cut(tokens, limit, eos).len() == limit && cut(
            tokens,
            limit,
            eos,
        ).last() == eos,
        tokens.len() > limit && 0 <= i < limit - 1 ==> cut(tokens, limit, eos)[i] == tokens[i],
{
}

} // verus!
