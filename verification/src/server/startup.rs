//! Opening the store: the one sequence every route into it runs.
//!
//! Lock, connect, migrate, load the embedder, settle the vector space, prune,
//! register the space. The configured model wins: a store recorded under
//! another model, width or pinned revision is moved on open, its vectors
//! cleared, its indexes redefined at the new width and its record rewritten.
//! Re-embedding the rows takes longer, so it happens in the background while
//! the store already serves.

use vstd::prelude::*;

verus! {

/// A vector space a store is recorded in.
#[derive(Debug, PartialEq, Eq)]
pub struct Space {
    pub model: String,
    pub dim: u64,
}

/// What a store's record says of its vector space, beside the embedder.
#[derive(Debug, PartialEq, Eq)]
pub enum Recorded {
    /// No space: a first run, or a store only ever opened without vectors.
    Nothing,
    /// The embedder's own model, width and revision.
    Same,
    /// Another one.
    Other(Space),
}

/// What to do about a store's vector space.
#[derive(Debug, Clone, Copy, PartialEq, Eq, Structural)]
pub enum Settling {
    /// Nothing: the embedder claims no space.
    Leave,
    /// Record the embedder's space, where nothing or an older record of the
    /// same one stands.
    Record,
    /// Clear every vector, redefine the indexes at the embedder's width, and
    /// record its space.
    Move,
}

/// What becomes of a store's vector space under an embedder of width `dim`.
pub open spec fn settling(dim: u64, recorded: Recorded) -> Settling {
    if dim == 0 {
        Settling::Leave
    } else if recorded is Other {
        Settling::Move
    } else {
        Settling::Record
    }
}

/// Settle a store's vector space against an embedder of width `dim`: the
/// configured model wins.
pub fn settle(dim: u64, recorded: &Recorded) -> (settled: Settling)
    ensures
        settled == settling(dim, *recorded),
{
    if dim == 0 {
        return Settling::Leave;
    }
    match recorded {
        Recorded::Other(_) => Settling::Move,
        _ => Settling::Record,
    }
}

/// How far the store's vectors are from the configured model.
#[derive(Debug, PartialEq, Eq)]
pub struct VectorState {
    /// Rows still without a vector.
    pending: usize,
    /// The space the store was recorded in before this open moved it, if it
    /// did.
    moved_from: Option<Space>,
}

impl Default for VectorState {
    /// Nothing to embed, nothing moved.
    fn default() -> (state: Self)
        ensures
            state.rows() == 0,
            state.origin() is None,
    {
        VectorState { pending: 0, moved_from: None }
    }
}

impl VectorState {
    /// Rows still without a vector.
    pub closed spec fn rows(self) -> nat {
        self.pending as nat
    }

    /// The space the store was moved out of.
    pub closed spec fn origin(self) -> Option<Space> {
        self.moved_from
    }

    /// A state with `pending` rows to embed and nothing moved.
    pub fn with_pending(pending: usize) -> (state: Self)
        ensures
            state.rows() == pending,
            state.origin() is None,
    {
        VectorState { pending, moved_from: None }
    }

    /// Where an open leaves the vectors: `pending` is the count of rows
    /// without one, taken once the space was settled.
    pub fn opened(dim: u64, recorded: Recorded, pending: usize) -> (state: Self)
        ensures
            dim == 0 ==> state.rows() == 0,
            dim > 0 ==> state.rows() == pending,
            settling(dim, recorded) != Settling::Move ==> state.origin() is None,
            settling(dim, recorded) == Settling::Move ==> (recorded matches Recorded::Other(space)
                && state.origin() == Some(space)),
    {
        if dim == 0 {
            return VectorState { pending: 0, moved_from: None };
        }
        match recorded {
            Recorded::Other(space) => VectorState { pending, moved_from: Some(space) },
            _ => VectorState { pending, moved_from: None },
        }
    }

    /// Rows a vector recall cannot reach yet.
    pub fn pending(&self) -> (pending: usize)
        ensures
            pending == self.rows(),
    {
        self.pending
    }

    /// The re-embedding's progress report.
    pub fn set_pending(&mut self, pending: usize)
        ensures
            final(self).rows() == pending,
            final(self).origin() == old(self).origin(),
    {
        self.pending = pending;
    }

    /// The space this open moved the store out of, if it moved it.
    pub fn moved_from(&self) -> (space: Option<&Space>)
        ensures
            match space {
                Some(space) => self.origin() == Some(*space),
                None => self.origin() is None,
            },
    {
        match &self.moved_from {
            Some(space) => Some(space),
            None => None,
        }
    }
}

/// How many working-context memories a sweep closed. A failed sweep closed
/// none, and the store is served anyway: by then it can answer questions, and
/// the sweep is not what the session came for.
pub fn pruned(swept: Result<usize, String>) -> (closed: usize)
    ensures
        closed == (match swept {
            Ok(closed) => closed,
            Err(_) => 0,
        }),
{
    match swept {
        Ok(closed) => closed,
        Err(_) => 0,
    }
}

/// What the record of a store says once its space was settled.
pub open spec fn recorded_after(dim: u64, recorded: Recorded) -> Recorded {
    match settling(dim, recorded) {
        Settling::Leave => recorded,
        Settling::Record => Recorded::Same,
        Settling::Move => Recorded::Same,
    }
}

/// An interrupted move needs no bookkeeping: the record already names the new
/// space, so the next open of the same embedder clears nothing and takes up
/// the rows that are left.
pub proof fn a_move_happens_once(dim: u64, recorded: Recorded)
    requires
        dim > 0,
    ensures
        settling(dim, recorded_after(dim, recorded)) == Settling::Record,
        recorded_after(dim, recorded_after(dim, recorded)) == recorded_after(dim, recorded),
{
}

/// An embedder without vectors claims no space and moves nothing: whatever the
/// store recorded stays.
pub proof fn a_dimensionless_embedder_moves_nothing(recorded: Recorded)
    ensures
        settling(0, recorded) == Settling::Leave,
        recorded_after(0, recorded) == recorded,
{
}

/// Vectors of another model are moved away from, once there is a dimension to
/// move into; where nothing or the same space is recorded, it is recorded.
pub proof fn only_another_space_is_moved_away_from(dim: u64, recorded: Recorded)
    ensures
        settling(dim, recorded) == Settling::Move <==> dim > 0 && recorded is Other,
        settling(dim, recorded) == Settling::Leave <==> dim == 0,
        dim > 0 && (recorded is Nothing || recorded is Same) ==> settling(dim, recorded)
            == Settling::Record,
{
}

} // verus!
