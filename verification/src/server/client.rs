//! The session side: find the daemon, start one if there is none, then get
//! out of the way.
//!
//! Once connected a session does nothing but move bytes. What is here is what
//! it decides before that: how it reads the daemon's answer, how it starts a
//! daemon, how long it waits, and what it says when it gives up.

use vstd::prelude::*;

use crate::server::config::Config;
use crate::server::daemon::{Ack, DAEMON_LOG_FILE, RELEASE};
use crate::server::serve::Next;
use crate::text::chars::{copy_text, texts};
use crate::text::number::{decimal, to_decimal};
use crate::text::path::{join_path, joined_path};
use crate::text::search::{occurs, what_is_put_between_occurs};

verus! {

/// How long to queue for the right to start a daemon before giving up, in
/// milliseconds.
pub const SPAWN_LOCK_DEADLINE_MS: u64 = 30000;

/// How long a starting daemon has to reach the point of accepting, in
/// milliseconds. The first run of a fresh install downloads the model, which
/// dominates this.
pub const READY_DEADLINE_MS: u64 = 120000;

/// How often to look again while waiting, in milliseconds.
pub const POLL_MS: u64 = 50;

/// How long a retiring daemon gets to unlink its socket and release the store
/// lock, in milliseconds.
pub const RETIRE_DEADLINE_MS: u64 = 15000;

/// How long the daemon has to answer the handshake, in milliseconds.
pub const ACK_DEADLINE_MS: u64 = 10000;

/// How long an answer may grow before its line ends.
pub const MAX_ACK: usize = 4096;

/// Whether a daemon this session starts is replacing one that just retired.
/// It changes the fresh daemon's ready line, and how often starting it is
/// tried.
#[derive(Debug, Clone, Copy, PartialEq, Eq, Structural)]
pub enum Takeover {
    /// The ordinary start: nothing was serving.
    No,
    /// The daemon that was serving retired for this session's release.
    FromRetired,
}

/// What one handshake attempt came to.
#[derive(Debug)]
pub enum Attached {
    /// The daemon took the session; the stream is MCP from here.
    Serving,
    /// The daemon is from another release and is shutting down so this session
    /// can start one from its own binary. What it said is worth a log line.
    DaemonRetired(String),
    /// The daemon refused, with this.
    Refused(String),
}

/// What the daemon said, or a stand-in where it said nothing.
pub open spec fn said(ack: Ack) -> Seq<char> {
    match ack.error {
        Some(error) => error@,
        None => "the shared store refused the handshake without saying why"@,
    }
}

/// Read the daemon's answer.
pub fn judge(ack: Ack) -> (attached: Attached)
    ensures
        match attached {
            Attached::Serving => ack.ok,
            Attached::DaemonRetired(why) => !ack.ok && ack.retiring && why@ == said(ack),
            Attached::Refused(why) => !ack.ok && !ack.retiring && why@ == said(ack),
        },
{
    if ack.ok {
        return Attached::Serving;
    }
    let why = match ack.error {
        Some(error) => error,
        None => "the shared store refused the handshake without saying why".to_owned(),
    };
    if ack.retiring {
        Attached::DaemonRetired(why)
    } else {
        Attached::Refused(why)
    }
}

/// What to do after a handshake attempt.
#[derive(Debug)]
pub enum Attempt {
    /// The session is attached.
    Attached,
    /// Wait for the old daemon to retire, and attach again, once.
    Again,
    /// Give up and say this.
    GiveUp(String),
}

/// What to do after an attempt to attach on `socket`; `takeover` says whether
/// it was the second one. A daemon that retires is waited out and replaced,
/// once. Two retirements in a row mean that two binaries are fighting over the
/// socket, and that is the user's to resolve.
pub fn after_attempt(attached: Attached, takeover: Takeover, socket: &str) -> (next: Attempt)
    ensures
        match attached {
            Attached::Serving => next is Attached,
            Attached::Refused(why) => next matches Attempt::GiveUp(message) && message@ == why@,
            Attached::DaemonRetired(_) => match takeover {
                Takeover::No => next is Again,
                Takeover::FromRetired => next matches Attempt::GiveUp(message) && message@
                    == "the shared store on "@ + socket@
                    + " retired twice in a row: two different agmem builds are attaching to it. Align them on one release, or pass --no-daemon."@,
            },
        },
{
    match attached {
        Attached::Serving => Attempt::Attached,
        Attached::Refused(why) => Attempt::GiveUp(why),
        Attached::DaemonRetired(_) => match takeover {
            Takeover::No => Attempt::Again,
            Takeover::FromRetired => Attempt::GiveUp(
                "the shared store on ".to_owned().concat(socket).concat(
                    " retired twice in a row: two different agmem builds are attaching to it. Align them on one release, or pass --no-daemon.",
                ),
            ),
        },
    }
}

/// The daemon's one-line answer, taken a byte at a time: the bytes behind the
/// line feed are MCP and belong to the pump, so nothing here may take more.
#[derive(Debug)]
pub struct AckLine {
    line: Vec<u8>,
}

/// What a byte of the answer comes to.
#[derive(Debug, Clone, Copy, PartialEq, Eq, Structural)]
pub enum AckStep {
    /// The line goes on.
    More,
    /// The line is complete.
    Complete,
    /// The line never ends.
    TooLong,
}

/// What a byte makes of the line so far.
pub open spec fn pushed(line: Seq<u8>, byte: u8) -> (Seq<u8>, AckStep) {
    if byte == 10 {
        (line, AckStep::Complete)
    } else if line.len() + 1 > MAX_ACK {
        (line.push(byte), AckStep::TooLong)
    } else {
        (line.push(byte), AckStep::More)
    }
}

impl View for AckLine {
    type V = Seq<u8>;

    closed spec fn view(&self) -> Seq<u8> {
        self.line@
    }
}

impl AckLine {
    /// Nothing read yet.
    pub fn new() -> (made: Self)
        ensures
            made@ == Seq::<u8>::empty(),
    {
        AckLine { line: Vec::new() }
    }

    /// Take the next byte.
    pub fn push(&mut self, byte: u8) -> (step: AckStep)
        ensures
            pushed(old(self)@, byte) == (final(self)@, step),
    {
        if byte == 10 {
            return AckStep::Complete;
        }
        self.line.push(byte);
        if self.line.len() > MAX_ACK {
            AckStep::TooLong
        } else {
            AckStep::More
        }
    }

    /// The bytes before the line feed.
    pub fn bytes(&self) -> (bytes: &Vec<u8>)
        ensures
            bytes@ == self@,
    {
        &self.line
    }
}

/// What taking the bytes of a stream one by one comes to: how many are taken,
/// and what the last one came to. `None` where the stream ends first.
pub open spec fn taken(line: Seq<u8>, stream: Seq<u8>) -> Option<(nat, AckStep)>
    decreases stream.len(),
{
    if stream.len() == 0 {
        None
    } else {
        let (line, step) = pushed(line, stream[0]);
        if step != AckStep::More {
            Some((1, step))
        } else {
            match taken(line, stream.skip(1)) {
                Some((n, step)) => Some((n + 1, step)),
                None => None,
            }
        }
    }
}

/// An answer that is followed by MCP is taken up to its line feed and no
/// further.
pub proof fn nothing_behind_the_line_is_taken(line: Seq<u8>, answer: Seq<u8>, rest: Seq<u8>)
    requires
        line.len() + answer.len() <= MAX_ACK,
        forall|i: int| 0 <= i < answer.len() ==> #[trigger] answer[i] != 10,
    ensures
        taken(line, answer + seq![10u8] + rest) == Some(
            ((answer.len() + 1) as nat, AckStep::Complete),
        ),
    decreases answer.len(),
{
    let stream = answer + seq![10u8] + rest;
    if answer.len() == 0 {
        assert(stream[0] == 10);
    } else {
        assert(stream[0] == answer[0]);
        assert(stream.skip(1) =~= answer.skip(1) + seq![10u8] + rest);
        assert forall|i: int| 0 <= i < answer.skip(1).len() implies #[trigger] answer.skip(1)[i]
            != 10 by {
            assert(answer[i + 1] != 10);
        }
        nothing_behind_the_line_is_taken(line.push(answer[0]), answer.skip(1), rest);
    }
}

/// Where the daemon this configuration would start writes its log.
pub open spec fn log_of(cfg: Config) -> Seq<char> {
    match cfg.log_file {
        Some(path) => path@,
        None => joined_path(cfg.data_dir@, DAEMON_LOG_FILE@),
    }
}

/// Where the daemon this configuration would start writes its log.
pub fn log_path(cfg: &Config) -> (path: String)
    ensures
        path@ == log_of(*cfg),
{
    match copy_text(&cfg.log_file) {
        Some(path) => path,
        None => join_path(cfg.data_dir.as_str(), DAEMON_LOG_FILE),
    }
}

/// The pid on the store lock, worded to drop into a message.
pub open spec fn hint(owner: Option<Seq<char>>) -> Seq<char> {
    match owner {
        Some(pid) => " (pid "@ + pid + " by its lock file: `kill "@ + pid + "`)"@,
        None => Seq::empty(),
    }
}

/// The text of an optional string slice.
pub open spec fn slice_text(text: Option<&str>) -> Option<Seq<char>> {
    match text {
        Some(text) => Some(text@),
        None => None,
    }
}

/// The pid on the store lock, worded to drop into a message, with the command
/// to run: a session that has to kill a daemon by hand should not also have to
/// work out how.
pub fn holder_hint(owner: Option<&str>) -> (text: String)
    ensures
        text@ == hint(slice_text(owner)),
{
    match owner {
        Some(pid) => " (pid ".to_owned().concat(pid).concat(" by its lock file: `kill ").concat(
            pid,
        ).concat("`)"),
        None => String::new(),
    }
}

/// What to say of a daemon that took the connection and then nothing, within
/// `deadline`.
pub fn wedged(cfg: &Config, owner: Option<&str>, deadline: &str) -> (message: String)
    ensures
        message@
            == "the shared store accepted the connection but did not answer the handshake within "@
            + deadline@ + ". It is wedged rather than slow"@ + hint(slice_text(owner))
            + "; stop it and retry. Its log is "@ + log_of(*cfg) + "."@,
{
    "the shared store accepted the connection but did not answer the handshake within ".to_owned().concat(
        deadline,
    ).concat(". It is wedged rather than slow").concat(holder_hint(owner).as_str()).concat(
        "; stop it and retry. Its log is ",
    ).concat(log_path(cfg).as_str()).concat(".")
}

/// What to say of a daemon that closed the connection without an answer: it is
/// probably too old to answer, and cannot be retired over the wire.
pub fn closed_without_answer(cfg: &Config, owner: Option<&str>) -> (message: String)
    ensures
        message@
            == "the shared store closed without answering the handshake. It is probably an agmem older than "@
            + RELEASE@ + " still holding "@ + cfg.data_dir@ + hint(slice_text(owner))
            + "; stop that process (or wait out its idle timeout) and retry. Its log is "@ + log_of(
            *cfg,
        ) + "."@,
{
    "the shared store closed without answering the handshake. It is probably an agmem older than ".to_owned().concat(
        RELEASE,
    ).concat(" still holding ").concat(cfg.data_dir.as_str()).concat(
        holder_hint(owner).as_str(),
    ).concat("; stop that process (or wait out its idle timeout) and retry. Its log is ").concat(
        log_path(cfg).as_str(),
    ).concat(".")
}

/// What to say of a process that holds the store and does not serve it.
pub fn store_still_owned(cfg: &Config, owner: Option<&str>) -> (message: String)
    ensures
        message@ == "another agmem process"@ + hint(slice_text(owner))
            + " still owns the store in "@ + cfg.data_dir@
            + " after 15s, and no daemon is answering on its socket. It is a --no-daemon session or a daemon that stopped serving; stop it, or pass --no-daemon here."@,
{
    "another agmem process".to_owned().concat(holder_hint(owner).as_str()).concat(
        " still owns the store in ",
    ).concat(cfg.data_dir.as_str()).concat(
        " after 15s, and no daemon is answering on its socket. It is a --no-daemon session or a daemon that stopped serving; stop it, or pass --no-daemon here.",
    )
}

/// What to say of a lock at `path` that another session never gave back.
pub fn never_started(path: &str) -> (message: String)
    ensures
        message@
            == "waited 30s for another agmem to finish starting the shared store and it never did. Remove "@
            + path@ + " if no agmem is running, or pass --no-daemon."@,
{
    "waited 30s for another agmem to finish starting the shared store and it never did. Remove ".to_owned().concat(
        path,
    ).concat(" if no agmem is running, or pass --no-daemon.")
}

/// What to say of a daemon that did not come up in time.
pub fn never_ready(cfg: &Config) -> (message: String)
    ensures
        message@ == "the shared store did not come up within 120s. Its log is "@ + log_of(*cfg)
            + "; --no-daemon opens the store in this process instead."@,
{
    "the shared store did not come up within 120s. Its log is ".to_owned().concat(
        log_path(cfg).as_str(),
    ).concat("; --no-daemon opens the store in this process instead.")
}

/// What a wait does next, `elapsed_ms` into it: what is there is taken, and
/// otherwise it is looked at again until the deadline has passed.
pub fn poll(there: bool, elapsed_ms: u64, deadline_ms: u64) -> (next: Next)
    ensures
        next == if there {
            Next::Done
        } else if elapsed_ms >= deadline_ms {
            Next::GiveUp
        } else {
            Next::Again(POLL_MS)
        },
        next is Again ==> next == Next::Again(50),
{
    if there {
        Next::Done
    } else if elapsed_ms >= deadline_ms {
        Next::GiveUp
    } else {
        Next::Again(POLL_MS)
    }
}

/// What a turn of waiting for a started daemon found.
#[derive(Debug, Clone, Copy, PartialEq, Eq, Structural)]
pub enum Ready {
    /// It accepted.
    Serving,
    /// It exited before it accepted.
    Died,
    /// Neither yet: look again.
    Waiting,
    /// Time is up.
    TimedOut,
}

/// What a turn of waiting for a started daemon comes to. The deadline is
/// looked at first, then whether it accepts, then whether it exited.
pub fn ready(elapsed_ms: u64, accepts: bool, exited: bool) -> (turn: Ready)
    ensures
        turn == if elapsed_ms >= READY_DEADLINE_MS {
            Ready::TimedOut
        } else if accepts {
            Ready::Serving
        } else if exited {
            Ready::Died
        } else {
            Ready::Waiting
        },
        turn == Ready::TimedOut <==> elapsed_ms >= 120000,
{
    if elapsed_ms >= READY_DEADLINE_MS {
        Ready::TimedOut
    } else if accepts {
        Ready::Serving
    } else if exited {
        Ready::Died
    } else {
        Ready::Waiting
    }
}

/// How often a daemon is started before its death is an error. A daemon that
/// retired may release the data-dir lock a moment before the store's own lock,
/// and a daemon started in that gap dies on the store: one more start is the
/// whole allowance.
pub fn starts_allowed(takeover: Takeover) -> (starts: u32)
    ensures
        starts == match takeover {
            Takeover::No => 1u32,
            Takeover::FromRetired => 2,
        },
{
    match takeover {
        Takeover::No => 1,
        Takeover::FromRetired => 2,
    }
}

/// What to do after a daemon died at startup, with `starts_left` starts left
/// before this one: start it again, with one start less, or give up.
///
/// # Errors
/// When this was the last start, what to say.
pub fn after_death(starts_left: u32, status: &str, cfg: &Config) -> (result: Result<u32, String>)
    requires
        starts_left > 0,
    ensures
        match result {
            Ok(left) => starts_left > 1 && left == starts_left - 1,
            Err(message) => starts_left == 1 && message@ == "the shared store exited ("@ + status@
                + ") before it accepted a session. Its log is "@ + log_of(*cfg)
                + "; --no-daemon opens the store in this process instead."@,
        },
{
    if starts_left > 1 {
        return Ok(starts_left - 1);
    }
    Err(
        "the shared store exited (".to_owned().concat(status).concat(
            ") before it accepted a session. Its log is ",
        ).concat(log_path(cfg).as_str()).concat(
            "; --no-daemon opens the store in this process instead.",
        ),
    )
}

/// The command line of a daemon for this configuration.
pub open spec fn daemon_args(cfg: Config, takeover: Takeover) -> Seq<Seq<char>> {
    let args = seq![
        "--daemon-serve"@,
        "--data"@,
        cfg.data_dir@,
        "--db"@,
        cfg.db_url@,
        "--embedder"@,
        cfg.embedder.spelling(),
        "--accelerator"@,
        cfg.accelerator.spelling(),
        "--idle-timeout"@,
        decimal(cfg.idle_timeout as nat),
        "--log"@,
        cfg.log@,
        "--log-file"@,
        log_of(cfg),
    ];
    if takeover == Takeover::FromRetired {
        args.push("--took-over"@)
    } else {
        args
    }
}

/// The command line to start a daemon with, from this same binary. A detached
/// process with nowhere to write is one nobody can diagnose, so its log goes to
/// a file.
pub fn spawn_args(cfg: &Config, takeover: Takeover) -> (args: Vec<String>)
    ensures
        texts(args@) == daemon_args(*cfg, takeover),
{
    let mut args: Vec<String> = Vec::new();
    args.push("--daemon-serve".to_owned());
    args.push("--data".to_owned());
    args.push(cfg.data_dir.clone());
    args.push("--db".to_owned());
    args.push(cfg.db_url.clone());
    args.push("--embedder".to_owned());
    args.push(cfg.embedder.as_str().to_owned());
    args.push("--accelerator".to_owned());
    args.push(cfg.accelerator.as_str().to_owned());
    args.push("--idle-timeout".to_owned());
    args.push(to_decimal(cfg.idle_timeout));
    args.push("--log".to_owned());
    args.push(cfg.log.clone());
    args.push("--log-file".to_owned());
    args.push(log_path(cfg));
    match takeover {
        Takeover::FromRetired => args.push("--took-over".to_owned()),
        Takeover::No => {},
    }
    assert(texts(args@) =~= daemon_args(*cfg, takeover));
    args
}

/// Bytes without a line feed are kept one after the other until there are too
/// many for an answer; the line feed ends the line and is not kept.
pub proof fn an_answer_is_read_up_to_its_line_feed(line: Seq<u8>, byte: u8)
    ensures
        pushed(line, 10) == (line, AckStep::Complete),
        byte != 10 && line.len() < 4096 ==> pushed(line, byte) == (
            line.push(byte),
            AckStep::More,
        ),
        byte != 10 && line.len() >= 4096 ==> pushed(line, byte) == (
            line.push(byte),
            AckStep::TooLong,
        ),
{
}

/// A stream that holds no line feed is given up on once it is longer than any
/// answer, and not before.
pub proof fn a_line_that_never_ends_is_given_up_on(line: Seq<u8>, stream: Seq<u8>)
    requires
        line.len() <= 4096,
        forall|i: int| 0 <= i < stream.len() ==> #[trigger] stream[i] != 10,
    ensures
        line.len() + stream.len() <= 4096 ==> taken(line, stream) is None,
        line.len() + stream.len() > 4096 ==> taken(line, stream) == Some(
            ((4097 - line.len()) as nat, AckStep::TooLong),
        ),
    decreases stream.len(),
{
    if stream.len() > 0 && line.len() < 4096 {
        let rest = stream.skip(1);
        assert(stream[0] != 10);
        assert forall|i: int| 0 <= i < rest.len() implies #[trigger] rest[i] != 10 by {
            assert(rest[i] == stream[i + 1]);
        }
        a_line_that_never_ends_is_given_up_on(line.push(stream[0]), rest);
    } else if stream.len() > 0 {
        assert(stream[0] != 10);
    }
}

/// The option stands among the arguments with this value right behind it.
pub open spec fn passes(args: Seq<Seq<char>>, option: Seq<char>, value: Seq<char>) -> bool {
    exists|i: int| 0 <= i < args.len() - 1 && #[trigger] args[i] == option && args[i + 1] == value
}

/// The daemon is started on this session's data dir, store, embedder,
/// accelerator, timeout and log; it is told that it took over where it did,
/// and only there.
pub proof fn a_daemon_is_started_as_the_session_is(cfg: Config, takeover: Takeover)
    ensures
        daemon_args(cfg, takeover)[0] == "--daemon-serve"@,
        daemon_args(cfg, Takeover::No).len() == 15,
        passes(daemon_args(cfg, takeover), "--data"@, cfg.data_dir@),
        passes(daemon_args(cfg, takeover), "--db"@, cfg.db_url@),
        passes(daemon_args(cfg, takeover), "--embedder"@, cfg.embedder.spelling()),
        passes(daemon_args(cfg, takeover), "--accelerator"@, cfg.accelerator.spelling()),
        passes(daemon_args(cfg, takeover), "--idle-timeout"@, decimal(cfg.idle_timeout as nat)),
        passes(daemon_args(cfg, takeover), "--log"@, cfg.log@),
        passes(daemon_args(cfg, takeover), "--log-file"@, log_of(cfg)),
        daemon_args(cfg, Takeover::FromRetired) == daemon_args(cfg, Takeover::No).push(
            "--took-over"@,
        ),
{
    let args = daemon_args(cfg, takeover);
    assert(args[1] == "--data"@ && args[3] == "--db"@ && args[5] == "--embedder"@);
    assert(args[7] == "--accelerator"@ && args[9] == "--idle-timeout"@);
    assert(args[11] == "--log"@ && args[13] == "--log-file"@);
}

/// The daemon's log is the file the session names, else one in its data dir.
pub proof fn a_named_log_wins(cfg: Config)
    ensures
        cfg.log_file matches Some(path) ==> log_of(cfg) == path@,
        cfg.log_file is None ==> log_of(cfg) == joined_path(cfg.data_dir@, "daemon.log"@),
{
}

/// A known owner is named, with the command that stops it; of an unknown one
/// nothing is said.
pub proof fn a_known_owner_is_named(pid: Seq<char>)
    ensures
        occurs(hint(Some(pid)), "pid "@ + pid),
        occurs(hint(Some(pid)), "kill "@ + pid),
        hint(None) == Seq::<char>::empty(),
{
    let none = Seq::<char>::empty();
    let whole = hint(Some(pid));
    assert(occurs(whole, "pid "@ + pid)) by {
        assert(" (pid "@ =~= " ("@ + "pid "@) by {
            reveal_strlit(" (pid ");
            reveal_strlit(" (");
            reveal_strlit("pid ");
        }
        let after = " by its lock file: `kill "@ + pid + "`)"@;
        assert(whole =~= " ("@ + ("pid "@ + pid) + after);
        what_is_put_between_occurs(" ("@, "pid "@ + pid, after);
    }
    assert(occurs(whole, "kill "@ + pid)) by {
        assert(" by its lock file: `kill "@ =~= " by its lock file: `"@ + "kill "@) by {
            reveal_strlit(" by its lock file: `kill ");
            reveal_strlit(" by its lock file: `");
            reveal_strlit("kill ");
        }
        let before = " (pid "@ + pid + " by its lock file: `"@;
        assert(whole =~= before + ("kill "@ + pid) + "`)"@);
        what_is_put_between_occurs(before, "kill "@ + pid, "`)"@);
    }
}

/// A refusal is repeated in its own words, where it has some.
pub proof fn a_refusal_is_repeated(ack: Ack)
    ensures
        ack.error matches Some(error) ==> said(ack) == error@,
        ack.error is None ==> said(ack)
            == "the shared store refused the handshake without saying why"@,
{
}

} // verus!
