//! The server: settings, the shared daemon, and what it says.

pub mod args;
pub mod client;
pub mod config;
pub mod daemon;
pub mod doc;
pub mod doctor;
pub mod embedder;
pub mod hook;
pub mod lock;
pub mod oneshot;
pub mod prompts;
pub mod reindex;
pub mod release;
pub mod resources;
pub mod run;
pub mod serve;
pub mod service;
pub mod space;
pub mod startup;
pub mod tools;
pub mod wire;
