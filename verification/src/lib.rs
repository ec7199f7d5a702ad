//! Long-term memory for agents: the rules behind the server.
//!
//! The crate holds what agmem decides and computes: how text is cut, named and
//! hashed, how settings resolve, how a session is admitted to the shared
//! daemon, what the hooks say. Every function states what it returns and is
//! proved to return it. Files, sockets and models are left to the program
//! around it.

pub mod domain;
pub mod embed;
pub mod server;
pub mod text;
