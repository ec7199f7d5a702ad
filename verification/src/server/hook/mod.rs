//! The shell side of the client's hooks.
//!
//! A hook reads a JSON payload, answers with a text, and never fails. Three
//! events carry memory behaviour: a session's start injects the briefing,
//! names the branch tag, and after a compaction lists what the session had
//! recalled; a tool's use keeps the per-session log of what was recalled and
//! written, and nudges at two seams; a stop nudges once, when a session
//! recalled memory and wrote none.
//!
//! The log is the one thing the store cannot keep: which rows a session saw.


pub mod events;
pub mod log;
pub mod payload;
pub mod shell;
