//! Single-writer discipline for embedded stores.
//!
//! An exclusive advisory lock on the data dir, held for the life of the
//! process that owns the store. Remote engines skip it: the database server is
//! the boundary there.

use vstd::prelude::*;

use crate::text::chars::{to_chars, to_text};
use crate::text::words::{trim, trimmed};

verus! {

/// Name of the lock file inside the data dir.
pub const LOCK_FILE: &'static str = "agmem.lock";

/// The pid recorded in a lock file that reads `contents`, if a process ever
/// took it.
///
/// Advisory: the number is whatever the last holder wrote.
pub fn owner(contents: &str) -> (found: Option<String>)
    ensures
        match found {
            Some(pid) => pid@ == trimmed(contents@) && pid@.len() > 0,
            None => trimmed(contents@).len() == 0,
        },
{
    let chars = to_chars(contents);
    let pid = to_text(trim(chars.as_slice()));
    if pid.as_str().is_empty() {
        None
    } else {
        Some(pid)
    }
}

/// What to say when another process holds the lock of `data_dir`, given what
/// its lock file reads. Names the owning pid and both ways to share the store.
pub fn already_owned(contents: &str, data_dir: &str) -> (message: String)
    ensures
        message@ == "another agmem process (pid "@ + trimmed(contents@)
            + ") already owns the data dir "@ + data_dir@
            + ". Sessions normally share it through the daemon that pid is running, so drop --no-daemon to attach to it — or point AGMEM_DB=ws://<host> at a shared SurrealDB server."@,
{
    let chars = to_chars(contents);
    let pid = to_text(trim(chars.as_slice()));
    "another agmem process (pid ".to_owned().concat(pid.as_str()).concat(
        ") already owns the data dir ",
    ).concat(data_dir).concat(
        ". Sessions normally share it through the daemon that pid is running, so drop --no-daemon to attach to it — or point AGMEM_DB=ws://<host> at a shared SurrealDB server.",
    )
}

} // verus!
