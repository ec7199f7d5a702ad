//! Ranking: decay rates, validity, and the order of candidates.
//!
//! Decay is computed at read time, never swept by a background job: a memory's
//! rank falls on its own as time passes, and every recall that returns it
//! pushes it back up. The scores themselves are floating-point sums taken
//! outside this module; what is here is the tables behind them and the order
//! they put the candidates in.

use vstd::prelude::*;

use crate::domain::model::{DecayClass, MemoryRecord, Timestamp};

verus! {

impl DecayClass {
    /// Ebbinghaus decay rate per day, in thousandths.
    pub fn rate_per_mille(self) -> (rate: u16)
        ensures
            rate == match self {
                DecayClass::Pinned => 0u16,
                DecayClass::Slow => 5,
                DecayClass::Normal => 20,
                DecayClass::Fast => 150,
            },
    {
        match self {
            DecayClass::Pinned => 0,
            DecayClass::Slow => 5,
            DecayClass::Normal => 20,
            DecayClass::Fast => 150,
        }
    }

    /// Standing importance in percent, independent of retrieval and age.
    ///
    /// This is what keeps a rarely-matched instruction ahead of a well-matched
    /// scratch note: the class the agent chose is the priority statement.
    pub fn importance_percent(self) -> (importance: u16)
        ensures
            importance == match self {
                DecayClass::Pinned => 100u16,
                DecayClass::Slow => 75,
                DecayClass::Normal => 50,
                DecayClass::Fast => 25,
            },
    {
        match self {
            DecayClass::Pinned => 100,
            DecayClass::Slow => 75,
            DecayClass::Normal => 50,
            DecayClass::Fast => 25,
        }
    }
}

/// A memory was live at `instant`: `valid_from <= instant < invalid_at`.
pub open spec fn valid_at(memory: MemoryRecord, instant: Timestamp) -> bool {
    &&& memory.valid_from.nanos <= instant.nanos
    &&& match memory.invalid_at {
        Some(closed) => instant.nanos < closed.nanos,
        None => true,
    }
}

/// Whether a memory was live at `instant`: `valid_from <= instant < invalid_at`.
///
/// Supersession closes a record rather than deleting it, so this is what makes
/// "what did I believe last Tuesday" answerable.
pub fn is_valid_at(memory: &MemoryRecord, instant: Timestamp) -> (valid: bool)
    ensures
        valid == valid_at(*memory, instant),
{
    memory.valid_from.nanos <= instant.nanos && match memory.invalid_at {
        Some(closed) => instant.nanos < closed.nanos,
        None => true,
    }
}

/// A live memory stays valid from its start on, and a closed one is never
/// valid again once it was closed.
pub proof fn validity_is_one_interval(memory: MemoryRecord, earlier: Timestamp, later: Timestamp)
    requires
        earlier.nanos <= later.nanos,
    ensures
        memory.invalid_at is None && valid_at(memory, earlier) ==> valid_at(memory, later),
        memory.valid_from.nanos <= earlier.nanos && !valid_at(memory, earlier) ==> !valid_at(
            memory,
            later,
        ),
{
}

/// Where a floating-point value with these bits stands in IEEE total order:
/// the non-negative values in the order of their bits, the negative ones below
/// them in the opposite order.
pub open spec fn total_order(bits: u64) -> int {
    if bits < 0x8000_0000_0000_0000 {
        bits as int
    } else {
        -1 - (bits - 0x8000_0000_0000_0000)
    }
}

/// The key by which a floating-point value with these bits is ordered.
pub fn total_order_key(bits: u64) -> (key: i64)
    ensures
        key == total_order(bits),
{
    if bits < 0x8000_0000_0000_0000 {
        bits as i64
    } else {
        -1 - ((bits - 0x8000_0000_0000_0000) as i64)
    }
}

/// Different bits have different places in the order.
pub proof fn total_order_is_injective(a: u64, b: u64)
    requires
        total_order(a) == total_order(b),
    ensures
        a == b,
{
}

/// Candidate `a` comes before candidate `b`: the higher key first, and of two
/// equal keys the one that came first.
pub open spec fn ranks_before(keys: Seq<i128>, a: int, b: int) -> bool {
    keys[a] > keys[b] || (keys[a] == keys[b] && a < b)
}

/// `order` lists every candidate once, best first.
pub open spec fn ranking(keys: Seq<i128>, order: Seq<usize>) -> bool {
    &&& order.len() == keys.len()
    &&& forall|i: int| 0 <= i < order.len() ==> #[trigger] order[i] < keys.len()
    &&& forall|i: int, j: int|
        0 <= i < j < order.len() ==> ranks_before(keys, #[trigger] order[i] as int, #[trigger] order[j] as int)
}

/// The candidates with these keys, best first.
///
/// The order is stable: equal keys keep the order the store returned them in.
pub fn rank_order(keys: &[i128]) -> (order: Vec<usize>)
    ensures
        ranking(keys@, order@),
{
    let mut order: Vec<usize> = Vec::new();
    let mut next: usize = 0;
    while next < keys.len()
        invariant
            next <= keys@.len(),
            ranking(keys@.take(next as int), order@),
        decreases keys@.len() - next,
    {
        let ghost before = order@;
        let mut at: usize = order.len();
        while at > 0 && keys[order[at - 1]] < keys[next]
            invariant
                at <= order@.len(),
                next < keys@.len(),
                order@ == before,
                ranking(keys@.take(next as int), order@),
                forall|i: int| at <= i < order@.len() ==> keys@[#[trigger] order@[i] as int] < keys@[next as int],
            decreases at,
        {
            assert(order@[at - 1] < keys@.take(next as int).len());
            at -= 1;
        }
        order.insert(at, next);
        proof {
            lemma_insert_ranks(keys@, before, at as int, next as int);
        }
        next += 1;
    }
    assert(keys@.take(next as int) =~= keys@);
    order
}

proof fn lemma_insert_ranks(keys: Seq<i128>, before: Seq<usize>, at: int, next: int)
    requires
        0 <= at <= before.len() == next < keys.len() <= usize::MAX,
        ranking(keys.take(next), before),
        at > 0 ==> keys[before[at - 1] as int] >= keys[next],
        forall|i: int| at <= i < before.len() ==> keys[#[trigger] before[i] as int] < keys[next],
    ensures
        ranking(keys.take(next + 1), before.insert(at, next as usize)),
{
    let head = keys.take(next);
    let all = keys.take(next + 1);
    let after = before.insert(at, next as usize);
    assert forall|i: int| 0 <= i < after.len() implies #[trigger] after[i] < all.len() by {
        if i < at {
            assert(after[i] == before[i] && before[i] < head.len());
        } else if i > at {
            assert(after[i] == before[i - 1] && before[i - 1] < head.len());
        }
    }
    assert forall|i: int, j: int| 0 <= i < j < after.len() implies ranks_before(
        all,
        #[trigger] after[i] as int,
        #[trigger] after[j] as int,
    ) by {
        let oi = if i < at { i } else { i - 1 };
        let oj = if j < at { j } else { j - 1 };
        if i != at {
            assert(after[i] == before[oi] && before[oi] < head.len());
            assert(all[before[oi] as int] == keys[before[oi] as int]);
            assert(head[before[oi] as int] == keys[before[oi] as int]);
        }
        if j != at {
            assert(after[j] == before[oj] && before[oj] < head.len());
            assert(all[before[oj] as int] == keys[before[oj] as int]);
            assert(head[before[oj] as int] == keys[before[oj] as int]);
        }
        if i == at {
            assert(after[i] == next);
        } else if j == at {
            assert(after[j] == next);
            if i < at - 1 {
                assert(ranks_before(head, before[i] as int, before[at - 1] as int));
            }
            assert(before[at - 1] < head.len());
        } else {
            assert(ranks_before(head, before[oi] as int, before[oj] as int));
        }
    }
}

/// A ranking is the only one: the keys decide the order.
pub proof fn a_ranking_is_unique(keys: Seq<i128>, a: Seq<usize>, b: Seq<usize>)
    requires
        keys.len() <= usize::MAX,
        ranking(keys, a),
        ranking(keys, b),
    ensures
        a == b,
{
    lemma_ranking_lists_all(keys, a);
    lemma_ranking_lists_all(keys, b);
    assert(a =~= b) by {
        assert forall|i: int| 0 <= i < a.len() implies a[i] == b[i] by {
            lemma_same_at(keys, a, b, i);
        }
    }
}

proof fn lemma_same_at(keys: Seq<i128>, a: Seq<usize>, b: Seq<usize>, i: int)
    requires
        ranking(keys, a),
        ranking(keys, b),
        forall|x: usize| x < keys.len() ==> a.contains(x),
        forall|x: usize| x < keys.len() ==> b.contains(x),
        0 <= i < a.len(),
    ensures
        a[i] == b[i],
    decreases i,
{
    assert forall|k: int| 0 <= k < i implies a[k] == b[k] by {
        lemma_same_at(keys, a, b, k);
    }
    if a[i] != b[i] {
        assert(b.contains(a[i]) && a.contains(b[i]));
        let p = b.index_of(a[i]);
        let q = a.index_of(b[i]);
        assert(b[p] == a[i] && a[q] == b[i]);
        if p < i {
            assert(a[p] == a[i]);
            assert(ranks_before(keys, a[p] as int, a[i] as int));
        } else if q < i {
            assert(b[q] == b[i]);
            assert(ranks_before(keys, b[q] as int, b[i] as int));
        } else {
            assert(ranks_before(keys, b[i] as int, b[p] as int));
            assert(ranks_before(keys, a[i] as int, a[q] as int));
        }
    }
}

proof fn lemma_ranking_lists_all(keys: Seq<i128>, order: Seq<usize>)
    requires
        keys.len() <= usize::MAX,
        ranking(keys, order),
    ensures
        forall|x: usize| x < keys.len() ==> order.contains(x),
{
    assert(order.no_duplicates()) by {
        assert forall|i: int, j: int| 0 <= i < order.len() && 0 <= j < order.len() && i != j implies order[i]
            != order[j] by {
            if i < j {
                assert(ranks_before(keys, order[i] as int, order[j] as int));
            } else {
                assert(ranks_before(keys, order[j] as int, order[i] as int));
            }
        }
    }
    let all = Set::new(|x: usize| x < keys.len());
    lemma_range_finite(keys.len() as int);
    order.unique_seq_to_set();
    assert(order.to_set().subset_of(all)) by {
        assert forall|x: usize| order.to_set().contains(x) implies all.contains(x) by {
            let i = order.index_of(x);
            assert(order[i] == x);
        }
    }
    vstd::set_lib::lemma_subset_equality(order.to_set(), all);
    assert forall|x: usize| x < keys.len() implies order.contains(x) by {
        assert(all.contains(x));
    }
}

proof fn lemma_range_finite(n: int)
    requires
        0 <= n,
    ensures
        Set::new(|x: usize| x < n).finite(),
        n <= usize::MAX ==> Set::new(|x: usize| x < n).len() == n,
    decreases n,
{
    let all = Set::new(|x: usize| x < n);
    if n == 0 {
        assert(all =~= Set::empty());
    } else {
        lemma_range_finite(n - 1);
        let less = Set::new(|x: usize| x < n - 1);
        if n - 1 <= usize::MAX {
            assert(all =~= less.insert((n - 1) as usize));
        } else {
            assert(all =~= less);
        }
    }
}

/// A ranking puts the best first and leaves nothing out: no later candidate has
/// a higher key, equal ones stay in the order they came in, and each candidate
/// is listed once.
pub proof fn a_ranking_puts_the_best_first(keys: Seq<i128>, order: Seq<usize>, i: int, j: int)
    requires
        keys.len() <= usize::MAX,
        ranking(keys, order),
        0 <= i < j < order.len(),
    ensures
        order.len() == keys.len(),
        keys[order[i] as int] >= keys[order[j] as int],
        keys[order[i] as int] == keys[order[j] as int] ==> order[i] < order[j],
        order[i] != order[j],
        forall|x: usize| x < keys.len() ==> order.contains(x),
{
    lemma_ranking_lists_all(keys, order);
    assert(ranks_before(keys, order[i] as int, order[j] as int));
}

/// A memory holds from the instant it starts and no longer at the instant it is
/// closed; before its start it does not hold, and an open one holds ever after.
pub proof fn a_memory_holds_from_its_start_up_to_its_end(memory: MemoryRecord, instant: Timestamp)
    ensures
        instant.nanos < memory.valid_from.nanos ==> !valid_at(memory, instant),
        memory.invalid_at matches Some(closed) ==> !valid_at(memory, closed) && (
        memory.valid_from.nanos <= instant.nanos < closed.nanos ==> valid_at(memory, instant)) && (
        closed.nanos <= instant.nanos ==> !valid_at(memory, instant)),
        memory.invalid_at is None ==> (valid_at(memory, instant) <==> memory.valid_from.nanos
            <= instant.nanos),
{
}

/// Non-negative values stand in the order of their bits, negative ones below
/// all of them, in the opposite order.
pub proof fn negative_values_stand_below(a: u64, b: u64)
    ensures
        a < b < 0x8000_0000_0000_0000 ==> total_order(a) < total_order(b),
        0x8000_0000_0000_0000 <= a < b ==> total_order(a) > total_order(b),
        a < 0x8000_0000_0000_0000 <= b ==> total_order(b) < total_order(a),
        a < 0x8000_0000_0000_0000 ==> total_order(a) >= 0,
        a >= 0x8000_0000_0000_0000 ==> total_order(a) < 0,
        a < 0x8000_0000_0000_0000 && b == a + 0x8000_0000_0000_0000 ==> total_order(a)
            + total_order(b) == -1,
{
}

} // verus!
