//! Memories and episodes: the records, and how text becomes them.

pub mod chunk;
pub mod dedup;
pub mod error;
pub mod json;
pub mod model;
pub mod scoring;
