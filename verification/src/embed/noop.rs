//! A test double that produces no vectors.
//!
//! Not a supported deployment. It is for tests that need a running server
//! where a model download is forbidden; rows written through it carry no
//! vector, so a later backend costs a re-embed of the old rows but breaks
//! nothing.

use vstd::prelude::*;

verus! {

/// What this backend calls its model, which the store never records: "none"
/// claims no vector space.
pub const MODEL_ID: &'static str = "none";

/// Produces no vectors at all.
#[derive(Debug, Clone, Copy)]
pub struct NoopEmbedder;

impl NoopEmbedder {
    /// Vector width: none.
    pub fn dim(&self) -> (dim: usize)
        ensures
            dim == 0,
    {
        0
    }

    /// The model's name.
    pub fn model_id(&self) -> (id: &'static str)
        ensures
            id@ == "none"@,
    {
        MODEL_ID
    }

    /// One empty vector per passage. A vector is held as the bits of its
    /// components.
    pub fn embed_passages(&self, passages: &[String]) -> (vectors: Vec<Vec<u32>>)
        ensures
            vectors@.len() == passages@.len(),
            forall|i: int| 0 <= i < vectors@.len() ==> (#[trigger] vectors@[i])@.len() == 0,
    {
        let mut vectors: Vec<Vec<u32>> = Vec::new();
        let mut i: usize = 0;
        while i < passages.len()
            invariant
                i <= passages@.len(),
                vectors@.len() == i,
                forall|j: int| 0 <= j < i ==> (#[trigger] vectors@[j])@.len() == 0,
            decreases passages@.len() - i,
        {
            vectors.push(Vec::new());
            i += 1;
        }
        vectors
    }

    /// An empty vector, whatever the query.
    pub fn embed_query(&self, _query: &str) -> (vector: Vec<u32>)
        ensures
            vector@.len() == 0,
    {
        Vec::new()
    }
}

} // verus!
