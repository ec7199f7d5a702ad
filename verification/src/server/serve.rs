//! The process that owns the store.
//!
//! It holds the data-dir lock for its whole life and serves one session after
//! the other over a Unix socket. Sessions come and go; the store does not.
//! What is here is the accept loop's side of that: which events it waits for,
//! and what each of them comes to.

use vstd::prelude::*;
use vstd::slice::slice_subrange;

use crate::server::daemon::{agrees, objection, Ack, Handshake, Refusal, RELEASE};
use crate::server::release::release_order;
use crate::text::chars::{to_chars, to_text};
use crate::text::path::{join_path, joined_path};
use crate::text::search::{stands_at, starts_with};

verus! {

/// How long a retiring daemon keeps serving the sessions already attached
/// before it exits, in milliseconds. Long enough for a tool call in flight to
/// answer; short enough that an upgrade does not look like a hang.
pub const DRAIN_MS: u64 = 2000;

/// How long a daemon on its way out waits for the engine to release the
/// store's own file lock, in milliseconds.
pub const STORE_RELEASE_DEADLINE_MS: u64 = 10000;

/// How often it looks, in milliseconds.
pub const STORE_RELEASE_POLL_MS: u64 = 5;

/// How one attached session ended, as far as the accept loop cares.
#[derive(Debug, Clone, Copy, PartialEq, Eq, Structural)]
pub enum SessionEnd {
    /// The ordinary way: the client went away, the daemon keeps serving.
    Detached,
    /// The session ran a newer release; the daemon refused it and now shuts
    /// down so that session can start a daemon from its own binary.
    Retiring,
}

/// Where the accept loop stands.
#[derive(Debug, Clone, Copy, PartialEq, Eq, Structural)]
pub struct AcceptLoop {
    /// Sessions that have not ended.
    pub attached: usize,
    /// The daemon is retiring: it accepts nobody, answers every handshake
    /// still in flight with "retiring", and exits when the last session ends
    /// or the drain window closes.
    pub draining: bool,
}

/// What can happen to the accept loop.
#[derive(Debug, Clone, Copy, PartialEq, Eq, Structural)]
pub enum Event {
    /// A connection came in.
    Accepted,
    /// A session ended.
    Ended(SessionEnd),
    /// The drain window closed.
    Drained,
    /// Nothing was attached for as long as the daemon waits.
    Idle,
}

/// What an event comes to.
#[derive(Debug, Clone, Copy, PartialEq, Eq, Structural)]
pub struct Action {
    /// Serve the connection that came in.
    pub serve: bool,
    /// Stop accepting and open the drain window.
    pub retire: bool,
    /// Take the socket out of the file system.
    pub unlink: bool,
    /// Leave the loop.
    pub stop: bool,
}

/// Which events the loop waits for.
#[derive(Debug, Clone, Copy, PartialEq, Eq, Structural)]
pub struct Waits {
    pub accepted: bool,
    pub ended: bool,
    pub drained: bool,
    pub idle: bool,
}

/// The loop waits for an event.
pub open spec fn awaited(state: AcceptLoop, idle_timeout: u64, event: Event) -> bool {
    match event {
        Event::Accepted => !state.draining,
        Event::Ended(_) => state.attached > 0,
        Event::Drained => state.draining,
        Event::Idle => !state.draining && state.attached == 0 && idle_timeout > 0,
    }
}

/// Where an event leaves the loop.
pub open spec fn left_by(state: AcceptLoop, event: Event) -> AcceptLoop {
    match event {
        Event::Accepted => AcceptLoop { attached: (state.attached + 1) as usize, ..state },
        Event::Ended(end) => AcceptLoop {
            attached: (state.attached - 1) as usize,
            draining: state.draining || end == SessionEnd::Retiring,
        },
        Event::Drained => state,
        Event::Idle => state,
    }
}

/// What an event comes to: the first session that retires the daemon takes the
/// socket away at once, since the refused session is waiting for exactly that;
/// a daemon that leaves without retiring takes it away on its way out.
pub open spec fn action_on(state: AcceptLoop, event: Event) -> Action {
    let retire = !state.draining && event == Event::Ended(SessionEnd::Retiring);
    let stop = match event {
        Event::Accepted => false,
        Event::Ended(_) => state.attached == 1 && (state.draining || retire),
        Event::Drained => true,
        Event::Idle => true,
    };
    Action {
        serve: event == Event::Accepted,
        retire,
        unlink: retire || (stop && !state.draining),
        stop,
    }
}

impl AcceptLoop {
    /// A daemon that has just bound its socket.
    pub fn new() -> (state: Self)
        ensures
            state.attached == 0,
            !state.draining,
    {
        AcceptLoop { attached: 0, draining: false }
    }

    /// Which events to wait for. An idle timeout of zero keeps the daemon
    /// until the machine restarts.
    pub fn waits(&self, idle_timeout: u64) -> (waits: Waits)
        ensures
            waits.accepted == awaited(*self, idle_timeout, Event::Accepted),
            waits.ended == awaited(*self, idle_timeout, Event::Ended(SessionEnd::Detached)),
            waits.drained == awaited(*self, idle_timeout, Event::Drained),
            waits.idle == awaited(*self, idle_timeout, Event::Idle),
    {
        Waits {
            accepted: !self.draining,
            ended: self.attached > 0,
            drained: self.draining,
            idle: !self.draining && self.attached == 0 && idle_timeout > 0,
        }
    }

    /// Take an event.
    pub fn step(&mut self, event: Event) -> (action: Action)
        requires
            awaited(*old(self), 1, event),
            old(self).attached < usize::MAX,
        ensures
            *final(self) == left_by(*old(self), event),
            action == action_on(*old(self), event),
    {
        match event {
            Event::Accepted => {
                self.attached = self.attached + 1;
                Action { serve: true, retire: false, unlink: false, stop: false }
            },
            Event::Ended(end) => {
                let draining = self.draining;
                let retire = !draining && match end {
                    SessionEnd::Retiring => true,
                    SessionEnd::Detached => false,
                };
                self.attached = self.attached - 1;
                self.draining = draining || retire;
                let stop = self.attached == 0 && (draining || retire);
                Action { serve: false, retire, unlink: retire, stop }
            },
            Event::Drained => Action { serve: false, retire: false, unlink: false, stop: true },
            Event::Idle => Action { serve: false, retire: false, unlink: true, stop: true },
        }
    }
}

/// A run of the loop: each event is awaited, and the last one alone stops it.
pub open spec fn runs(state: AcceptLoop, events: Seq<Event>) -> bool
    decreases events.len(),
{
    &&& events.len() > 0
    &&& awaited(state, 1, events[0])
    &&& state.attached < usize::MAX
    &&& if events.len() == 1 {
        action_on(state, events[0]).stop
    } else {
        !action_on(state, events[0]).stop && runs(left_by(state, events[0]), events.skip(1))
    }
}

/// How often a run takes the socket away.
pub open spec fn unlinks(state: AcceptLoop, events: Seq<Event>) -> nat
    decreases events.len(),
{
    if events.len() == 0 {
        0
    } else {
        (if action_on(state, events[0]).unlink {
            1nat
        } else {
            0
        }) + unlinks(left_by(state, events[0]), events.skip(1))
    }
}

/// A daemon takes its socket away exactly once: a retiring daemon when it
/// stops accepting, any other when it exits. After that the path may already
/// belong to the daemon that replaced it.
pub proof fn the_socket_is_unlinked_once(state: AcceptLoop, events: Seq<Event>)
    requires
        runs(state, events),
    ensures
        unlinks(state, events) == if state.draining {
            0nat
        } else {
            1
        },
    decreases events.len(),
{
    if events.len() == 1 {
        assert(events.skip(1) =~= Seq::empty());
        assert(unlinks(left_by(state, events[0]), events.skip(1)) == 0);
    } else {
        the_socket_is_unlinked_once(left_by(state, events[0]), events.skip(1));
    }
}

/// A retiring daemon stays one: it never accepts again, and it leaves as soon
/// as nobody is attached.
pub proof fn retiring_is_for_good(state: AcceptLoop, event: Event)
    requires
        state.draining,
        awaited(state, 1, event),
    ensures
        left_by(state, event).draining,
        !action_on(state, event).serve,
        event is Ended && state.attached == 1 ==> action_on(state, event).stop,
{
}

/// A daemon leaves with sessions attached only where it retires and the drain
/// window has closed.
pub proof fn sessions_are_cut_loose_only_by_the_drain(state: AcceptLoop, event: Event)
    requires
        awaited(state, 1, event),
        action_on(state, event).stop,
        left_by(state, event).attached > 0,
    ensures
        event == Event::Drained,
        state.draining,
{
}

/// Answer a handshake: a daemon another session retired answers every later
/// one with "wait for the fresh one", not with an `ok` on a socket about to
/// close.
///
/// # Errors
/// Why the session is turned away.
pub fn decide(retiring: bool, daemon: &Handshake, asked: &Handshake) -> (result: Result<
    (),
    Refusal,
>)
    ensures
        retiring ==> (result matches Err(refusal) && refusal.retire && refusal.message@
            == "the running daemon (agmem "@ + RELEASE@
            + ") is retiring for a newer release; this session waits for the fresh one."@),
        !retiring ==> match result {
            Ok(_) => objection(
                *daemon,
                *asked,
                release_order(asked.release@, daemon.release@),
            ) is None,
            Err(refusal) => objection(
                *daemon,
                *asked,
                release_order(asked.release@, daemon.release@),
            ) == Some((refusal.retire, refusal.message@)),
        },
        !retiring && agrees(*daemon, *asked) ==> result is Ok,
{
    if retiring {
        Err(Refusal::already_retiring())
    } else {
        daemon.accept(asked)
    }
}

/// What becomes of a session once its handshake is answered.
#[derive(Debug)]
pub enum Verdict {
    /// It is served.
    Serve,
    /// It is turned away and the daemon retires.
    Retire,
    /// It is turned away with this, and the daemon keeps serving.
    Refuse(String),
}

/// The line that goes over the socket, and what becomes of the session. The
/// answer goes over the socket either way: a refusal that only lands in the
/// daemon's log is one the session pumps through as an end of file.
pub fn answer(decision: Result<(), Refusal>) -> (answer: (Ack, Verdict))
    ensures
        match decision {
            Ok(_) => answer.0.ok && answer.0.error is None && !answer.0.retiring && answer.1
                is Serve,
            Err(refusal) => {
                &&& !answer.0.ok
                &&& answer.0.error == Some(refusal.message)
                &&& answer.0.retiring == refusal.retire
                &&& if refusal.retire {
                    answer.1 is Retire
                } else {
                    answer.1 == Verdict::Refuse(refusal.message)
                }
            },
        },
{
    match decision {
        Ok(_) => (Ack::accepted(), Verdict::Serve),
        Err(refusal) => {
            let ack = Ack::refused(&refusal);
            if refusal.retire {
                (ack, Verdict::Retire)
            } else {
                (ack, Verdict::Refuse(refusal.message))
            }
        },
    }
}

/// The lock file an embedded surrealkv store keeps at its root, for the
/// engines that keep one.
pub fn store_lock_path(db_url: &str) -> (found: Option<String>)
    ensures
        match found {
            Some(path) => starts_with(db_url@, "surrealkv://"@) && path@ == joined_path(
                db_url@.skip(12),
                "LOCK"@,
            ),
            None => !starts_with(db_url@, "surrealkv://"@),
        },
{
    proof {
        reveal_strlit("surrealkv://");
    }
    let chars = to_chars(db_url);
    let scheme = to_chars("surrealkv://");
    if !stands_at(chars.as_slice(), scheme.as_slice(), 0) {
        return None;
    }
    assert(chars@.subrange(12, chars@.len() as int) =~= db_url@.skip(12));
    let root = to_text(slice_subrange(chars.as_slice(), 12, chars.len()));
    Some(join_path(root.as_str(), "LOCK"))
}

/// What a look at the store's own lock found.
#[derive(Debug, Clone, Copy, PartialEq, Eq, Structural)]
pub enum StoreLock {
    /// Nobody holds it, or there is no such file.
    Free,
    /// The engine still holds it.
    Held,
    /// It could not be looked at.
    Unknown,
}

/// What a wait does next.
#[derive(Debug, Clone, Copy, PartialEq, Eq, Structural)]
pub enum Next {
    /// What was waited for is there.
    Done,
    /// Look again after this many milliseconds.
    Again(u64),
    /// Time is up, or there is nothing to wait for.
    GiveUp,
}

/// What to do after looking at the store's lock, `elapsed_ms` into the wait:
/// the handle is released when the store has let go, when the lock cannot be
/// looked at, or when the deadline has passed.
pub fn after_store_probe(lock: StoreLock, elapsed_ms: u64) -> (next: Next)
    ensures
        next == match lock {
            StoreLock::Free => Next::Done,
            StoreLock::Unknown => Next::GiveUp,
            StoreLock::Held => if elapsed_ms >= STORE_RELEASE_DEADLINE_MS {
                Next::GiveUp
            } else {
                Next::Again(STORE_RELEASE_POLL_MS)
            },
        },
        lock == StoreLock::Held ==> (next == Next::GiveUp <==> elapsed_ms >= 10000),
{
    match lock {
        StoreLock::Free => Next::Done,
        StoreLock::Unknown => Next::GiveUp,
        StoreLock::Held => if elapsed_ms >= STORE_RELEASE_DEADLINE_MS {
            Next::GiveUp
        } else {
            Next::Again(STORE_RELEASE_POLL_MS)
        },
    }
}

/// A session that comes and goes leaves the loop as it was; each one that comes
/// counts, each one that goes stops counting, and nothing else does.
pub proof fn the_loop_counts_its_sessions(state: AcceptLoop, end: SessionEnd)
    requires
        state.attached < usize::MAX,
    ensures
        left_by(state, Event::Accepted).attached == state.attached + 1,
        left_by(state, Event::Accepted).draining == state.draining,
        state.attached > 0 ==> left_by(state, Event::Ended(end)).attached == state.attached - 1,
        left_by(left_by(state, Event::Accepted), Event::Ended(SessionEnd::Detached)) == state,
        left_by(state, Event::Drained).attached == state.attached,
        left_by(state, Event::Idle).attached == state.attached,
{
}

/// A daemon accepts until it retires; it watches the clock only with nothing
/// attached, and never where the timeout is zero.
pub proof fn the_loop_waits_for_what_can_come(state: AcceptLoop, idle_timeout: u64)
    ensures
        awaited(state, idle_timeout, Event::Accepted) <==> !state.draining,
        awaited(state, idle_timeout, Event::Drained) <==> state.draining,
        awaited(state, idle_timeout, Event::Idle) ==> state.attached == 0 && idle_timeout != 0,
        state.attached == 0 && !state.draining && idle_timeout != 0 ==> awaited(
            state,
            idle_timeout,
            Event::Idle,
        ),
        state.attached > 0 ==> awaited(state, idle_timeout, Event::Ended(SessionEnd::Retiring)),
{
}

/// A session that retires the daemon takes the socket away at once and starts
/// the drain; one that just leaves a serving daemon changes nothing else. Only
/// a new connection is served.
pub proof fn only_a_retiring_session_retires_the_daemon(state: AcceptLoop, event: Event)
    requires
        awaited(state, 1, event),
        !state.draining,
    ensures
        event == Event::Ended(SessionEnd::Retiring) ==> action_on(state, event).retire && action_on(
            state,
            event,
        ).unlink && left_by(state, event).draining && (action_on(state, event).stop
            <==> state.attached == 1),
        event == Event::Ended(SessionEnd::Detached) ==> !action_on(state, event).retire
            && !action_on(state, event).unlink && !action_on(state, event).stop && !left_by(
            state,
            event,
        ).draining,
        action_on(state, event).serve <==> event is Accepted,
        event is Accepted ==> !action_on(state, event).stop && !action_on(state, event).unlink,
        event is Idle ==> action_on(state, event).stop && action_on(state, event).unlink,
{
}

} // verus!
