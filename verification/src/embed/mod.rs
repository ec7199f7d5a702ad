//! Embedding models: what is true of each, and how text is put to them.

pub mod accelerator;
pub mod api;
pub mod batch;
pub mod candidates;
pub mod error;
pub mod fastembed;
pub mod llama;
pub mod model;
pub mod noop;
pub mod rerank;
pub mod session;
pub mod static_m2v;
