//! A cross-encoder that scores passages against a query.

use vstd::prelude::*;

verus! {

/// What a store would record if this model ever wrote one.
pub const MODEL_ID: &'static str = "jina-reranker-v1-turbo-en";

/// Local cross-encoder scoring of (query, passage) pairs. A score is held as
/// its bits.
#[derive(Debug, Clone, Copy)]
pub struct FastembedReranker;

/// Scores by passage: each result is put at its passage's place, a later one
/// over an earlier one, and a passage without a result keeps zero.
pub open spec fn placed(ranked: Seq<(usize, u64)>, passages: nat) -> Seq<u64>
    decreases ranked.len(),
{
    if ranked.len() == 0 {
        Seq::new(passages, |i: int| 0u64)
    } else {
        placed(ranked.drop_last(), passages).update(ranked.last().0 as int, ranked.last().1)
    }
}

impl FastembedReranker {
    /// The scores of the passages in the order they were given, from results
    /// that name each passage by its index and come in the order of the
    /// scores.
    pub fn place(&self, ranked: &[(usize, u64)], passages: usize) -> (scores: Vec<u64>)
        requires
            forall|i: int| 0 <= i < ranked@.len() ==> (#[trigger] ranked@[i]).0 < passages,
        ensures
            scores@ == placed(ranked@, passages as nat),
            scores@.len() == passages,
    {
        let mut scores: Vec<u64> = Vec::new();
        let mut i: usize = 0;
        while i < passages
            invariant
                i <= passages,
                scores@ == Seq::new(i as nat, |i: int| 0u64),
            decreases passages - i,
        {
            scores.push(0);
            i += 1;
            assert(scores@ =~= Seq::new(i as nat, |i: int| 0u64));
        }
        let mut j: usize = 0;
        while j < ranked.len()
            invariant
                j <= ranked@.len(),
                scores@.len() == passages,
                forall|i: int| 0 <= i < ranked@.len() ==> (#[trigger] ranked@[i]).0 < passages,
                scores@ == placed(ranked@.take(j as int), passages as nat),
            decreases ranked@.len() - j,
        {
            assert(ranked@.take(j + 1).drop_last() =~= ranked@.take(j as int));
            let (index, score) = ranked[j];
            scores.set(index, score);
            j += 1;
        }
        assert(ranked@.take(ranked@.len() as int) =~= ranked@);
        scores
    }
}

/// Where every passage has one result, the scores come back in the order of
/// the passages, whatever order the results came in.
pub proof fn scores_follow_the_passages(ranked: Seq<(usize, u64)>, passages: nat, i: int)
    requires
        forall|j: int| 0 <= j < ranked.len() ==> (#[trigger] ranked[j]).0 < passages,
        forall|j: int, k: int|
            0 <= j < k < ranked.len() ==> (#[trigger] ranked[j]).0 != (#[trigger] ranked[k]).0,
        0 <= i < ranked.len(),
    ensures
        placed(ranked, passages).len() == passages,
        placed(ranked, passages)[ranked[i].0 as int] == ranked[i].1,
    decreases ranked.len(),
{
    let front = ranked.drop_last();
    assert(forall|j: int| 0 <= j < front.len() ==> front[j] == ranked[j]);
    lemma_placed_len(ranked, passages);
    lemma_placed_len(front, passages);
    if i < ranked.len() - 1 {
        scores_follow_the_passages(front, passages, i);
        assert(ranked[i].0 != ranked.last().0);
    }
}

proof fn lemma_placed_len(ranked: Seq<(usize, u64)>, passages: nat)
    requires
        forall|j: int| 0 <= j < ranked.len() ==> (#[trigger] ranked[j]).0 < passages,
    ensures
        placed(ranked, passages).len() == passages,
    decreases ranked.len(),
{
    if ranked.len() > 0 {
        let front = ranked.drop_last();
        assert(forall|j: int| 0 <= j < front.len() ==> front[j] == ranked[j]);
        assert(ranked[ranked.len() - 1].0 < passages);
        lemma_placed_len(front, passages);
    }
}

/// A passage that was not ranked scores zero.
pub proof fn an_unranked_passage_scores_zero(ranked: Seq<(usize, u64)>, passages: nat, i: int)
    requires
        forall|j: int| 0 <= j < ranked.len() ==> (#[trigger] ranked[j]).0 < passages,
        forall|j: int| 0 <= j < ranked.len() ==> (#[trigger] ranked[j]).0 != i,
        0 <= i < passages,
    ensures
        placed(ranked, passages)[i] == 0,
    decreases ranked.len(),
{
    if ranked.len() > 0 {
        let front = ranked.drop_last();
        assert forall|j: int| 0 <= j < front.len() implies (#[trigger] front[j]).0 < passages
            && front[j].0 != i by {
            assert(front[j] == ranked[j]);
        }
        lemma_placed_len(front, passages);
        an_unranked_passage_scores_zero(front, passages, i);
        assert(ranked[ranked.len() - 1].0 != i);
    }
}

} // verus!
