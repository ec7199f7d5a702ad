//! The shared store daemon.
//!
//! An embedded store is single-writer, and every project shares one data
//! directory. So one process owns the store and the rest talk to it over a
//! Unix socket, in MCP itself: a session's `agmem` becomes a byte pump between
//! its stdio and the socket, and the daemon behind it runs the real service.
//!
//! The store is shared but the configuration is not: each connection opens
//! with a [`Handshake`] saying who is asking, and the daemon builds a fresh
//! service for it over the one store.

use vstd::prelude::*;
use vstd::utf8::encode_utf8;

use crate::domain::model::SpaceName;
use crate::server::config::{
    a_server_address_is_remote, remote, same_but_session, Config, EmbedderKind,
};
use crate::server::release::{newer, release_order, Order};
use crate::server::tools::ToolDescriptions;
use crate::text::number::{decimal, to_decimal};
use crate::text::path::{join_path, joined_path};
use crate::text::search::{has_prefix, occurs, same, starts_with, what_is_put_between_occurs};

verus! {

/// The socket the daemon listens on, inside the data dir.
pub const SOCKET_FILE: &'static str = "agmem.sock";

/// The lock that serialises starting a daemon, so a burst of sessions produces
/// one rather than one each.
pub const SPAWN_LOCK_FILE: &'static str = "agmem.spawn.lock";

/// Where the daemon logs when the session that started it has no log file.
pub const DAEMON_LOG_FILE: &'static str = "daemon.log";

/// Bumped whenever the handshake or the socket's meaning changes. A session
/// that meets a daemon it does not recognise refuses rather than guesses.
pub const PROTOCOL_VERSION: u32 = 3;

/// The version of the code actually serving. [`PROTOCOL_VERSION`] only moves
/// when the wire changes, so it cannot tell two releases apart.
pub const RELEASE: &'static str = "0.3.0";

/// The longest socket path a socket address can hold. macOS allows 104 bytes
/// including the terminator and Linux 108; the smaller number travels.
pub const MAX_SOCKET_PATH: usize = 104;

/// This run goes through the shared daemon.
pub open spec fn shared(cfg: Config) -> bool {
    !cfg.no_daemon && !remote(cfg.db_url@) && !starts_with(cfg.db_url@, "mem://"@)
}

/// Whether this run should go through the shared daemon.
///
/// Three runs do not: a remote engine already has a server between the
/// sessions, a `mem://` store is per-process by definition, and `--no-daemon`
/// is the escape hatch.
pub fn wanted(cfg: &Config) -> (result: bool)
    ensures
        result == shared(*cfg),
        result == (!cfg.no_daemon && !remote(cfg.db_url@) && !starts_with(cfg.db_url@, "mem://"@)),
{
    !cfg.no_daemon && !cfg.db_is_remote() && !has_prefix(cfg.db_url.as_str(), "mem://")
}

/// Where the daemon for `data_dir` would listen.
pub open spec fn socket_in(data_dir: Seq<char>) -> Seq<char> {
    joined_path(data_dir, SOCKET_FILE@)
}

/// Where the daemon for `data_dir` listens.
///
/// # Errors
/// When the path will not fit a socket address. Truncating it silently would
/// point two data dirs at one socket, which is worse than refusing to start.
pub fn socket_path(data_dir: &str) -> (result: Result<String, String>)
    ensures
        match result {
            Ok(path) => path@ == socket_in(data_dir@) && encode_utf8(path@).len()
                < MAX_SOCKET_PATH,
            Err(message) => encode_utf8(socket_in(data_dir@)).len() >= MAX_SOCKET_PATH && message@
                == "the shared-store socket path would be "@ + decimal(
                encode_utf8(socket_in(data_dir@)).len(),
            ) + " bytes, past the "@ + decimal(MAX_SOCKET_PATH as nat)
                + " a unix socket address holds: "@ + socket_in(data_dir@)
                + ". Use a shorter --data, or --no-daemon to open the store in this process."@,
        },
{
    let path = join_path(data_dir, SOCKET_FILE);
    let len: usize = path.as_str().as_bytes().len();
    if len >= MAX_SOCKET_PATH {
        return Err(
            "the shared-store socket path would be ".to_owned().concat(
                to_decimal(len as u64).as_str(),
            ).concat(" bytes, past the ").concat(to_decimal(MAX_SOCKET_PATH as u64).as_str()).concat(
                " a unix socket address holds: ",
            ).concat(path.as_str()).concat(
                ". Use a shorter --data, or --no-daemon to open the store in this process.",
            ),
        );
    }
    Ok(path)
}

/// The lock a session takes before starting a daemon.
pub fn spawn_lock_path(data_dir: &str) -> (path: String)
    ensures
        path@ == joined_path(data_dir@, SPAWN_LOCK_FILE@),
{
    join_path(data_dir, SPAWN_LOCK_FILE)
}

/// What a session tells the daemon before MCP starts.
///
/// `db_url` and `embedder` are not applied, they are checked: a session asking
/// for a different store or a different model than the running daemon holds is
/// a misconfiguration, and quietly serving the wrong one is worse than
/// refusing. `space`, `pool`, `max_k` and `tool_desc` are applied: they are
/// what differs legitimately between two projects sharing a store.
#[derive(Debug, PartialEq, Eq)]
pub struct Handshake {
    /// [`PROTOCOL_VERSION`] of the session that opened the connection.
    pub version: u32,
    /// [`RELEASE`] of the binary that opened the connection.
    pub release: String,
    /// The store the session expects to be talking to.
    pub db_url: String,
    /// The embedding backend it expects.
    pub embedder: EmbedderKind,
    /// The project asking: what `space` defaults to for this connection.
    pub space: SpaceName,
    /// Candidate pool for this connection's recalls.
    pub pool: u16,
    /// Ceiling on `k` for this connection.
    pub max_k: u16,
    /// The tool descriptions this project wants served, if it replaced any.
    pub tool_desc: ToolDescriptions,
}

/// How a session's release stands to a daemon's, given how `order` ranks them:
/// one text is one release, whether or not it can be read as a version.
pub open spec fn standing(order: Option<Order>, asked: Seq<char>, daemon: Seq<char>) -> Option<
    Order,
> {
    if order is None && asked == daemon {
        Some(Order::Equal)
    } else {
        order
    }
}

/// Why `daemon` turns `asked` away: whether it steps aside, and what it says.
/// `None` where it takes the session. `order` is how the session's release
/// ranks against the daemon's, where both can be read.
///
/// The release comes first: a version skew subsumes whatever else differs. The
/// newer binary is the one just installed, so the daemon defers to a newer
/// session rather than serving code that no longer matches what is on disk,
/// and keeps serving when the session is the older one.
pub open spec fn objection(daemon: Handshake, asked: Handshake, order: Option<Order>) -> Option<
    (bool, Seq<char>),
> {
    match standing(order, asked.release@, daemon.release@) {
        Some(Order::Greater) => Some(
            (
                true,
                "the running daemon is agmem "@ + daemon.release@ + " and this session is agmem "@
                    + asked.release@
                    + "; the daemon is retiring so a fresh one can serve this release. Sessions still attached to it need a restart."@,
            ),
        ),
        Some(Order::Less) => Some(
            (
                false,
                "the running daemon is agmem "@ + daemon.release@
                    + " and this session is an older agmem "@ + asked.release@
                    + "; the daemon keeps serving the newer release. Run this session from the same agmem, or pass --no-daemon."@,
            ),
        ),
        None => Some(
            (
                true,
                "the running daemon is agmem "@ + daemon.release@ + " and this session is agmem "@
                    + asked.release@
                    + "; the daemon is retiring so a fresh one can serve this release."@,
            ),
        ),
        Some(Order::Equal) => if asked.version != daemon.version {
            Some(
                (
                    asked.version > daemon.version,
                    "this session speaks agmem daemon protocol v"@ + decimal(asked.version as nat)
                        + " and the running daemon speaks v"@ + decimal(daemon.version as nat)
                        + "; the daemon is an older or newer agmem. Stop it and let this one start a fresh daemon."@,
                ),
            )
        } else if asked.db_url@ != daemon.db_url@ {
            Some(
                (
                    false,
                    "the running daemon holds "@ + daemon.db_url@ + " and this session asked for "@
                        + asked.db_url@
                        + ". One data dir is one store; pass --no-daemon, or point both at the same --db."@,
                ),
            )
        } else if asked.embedder != daemon.embedder {
            Some(
                (
                    false,
                    "the running daemon embeds with "@ + daemon.embedder.spelling()
                        + " and this session asked for "@ + asked.embedder.spelling()
                        + ". Vectors from two models cannot be compared; stop the daemon or match --embedder."@,
                ),
            )
        } else {
            None
        },
    }
}

/// The two sides agree on release, protocol, store and embedder.
pub open spec fn agrees(daemon: Handshake, asked: Handshake) -> bool {
    &&& asked.release@ == daemon.release@
    &&& asked.version == daemon.version
    &&& asked.db_url@ == daemon.db_url@
    &&& asked.embedder == daemon.embedder
}

/// `daemon` steps aside for `asked`.
pub open spec fn retires_for(daemon: Handshake, asked: Handshake) -> bool {
    match objection(daemon, asked, release_order(asked.release@, daemon.release@)) {
        Some((retire, _)) => retire,
        None => false,
    }
}

impl Handshake {
    /// What this configuration asks a daemon for.
    pub fn new(cfg: &Config) -> (made: Self)
        ensures
            made.version == PROTOCOL_VERSION,
            made.version == 3,
            made.release@ == RELEASE@,
            made.db_url == cfg.db_url,
            made.embedder == cfg.embedder,
            made.space == cfg.space,
            made.pool == cfg.pool,
            made.max_k == cfg.max_k,
            made.tool_desc@ == cfg.tool_desc@,
    {
        Handshake {
            version: PROTOCOL_VERSION,
            release: RELEASE.to_owned(),
            db_url: cfg.db_url.clone(),
            embedder: cfg.embedder,
            space: cfg.space.clone(),
            pool: cfg.pool,
            max_k: cfg.max_k,
            tool_desc: cfg.tool_desc.clone(),
        }
    }

    /// Refuse a session that expects something this daemon is not serving,
    /// given how its release ranks against the daemon's.
    ///
    /// # Errors
    /// When the release, the protocol version, the store or the embedder
    /// disagree.
    pub fn accept_release(&self, asked: &Self, order: Option<Order>) -> (result: Result<
        (),
        Refusal,
    >)
        ensures
            match result {
                Ok(_) => objection(*self, *asked, order) is None,
                Err(refusal) => objection(*self, *asked, order) == Some(
                    (refusal.retire, refusal.message@),
                ),
            },
    {
        match order {
            Some(Order::Greater) => {
                let message = "the running daemon is agmem ".to_owned().concat(
                    self.release.as_str(),
                ).concat(" and this session is agmem ").concat(asked.release.as_str()).concat(
                    "; the daemon is retiring so a fresh one can serve this release. Sessions still attached to it need a restart.",
                );
                return Err(Refusal { retire: true, message });
            },
            Some(Order::Less) => {
                let message = "the running daemon is agmem ".to_owned().concat(
                    self.release.as_str(),
                ).concat(" and this session is an older agmem ").concat(
                    asked.release.as_str(),
                ).concat(
                    "; the daemon keeps serving the newer release. Run this session from the same agmem, or pass --no-daemon.",
                );
                return Err(Refusal { retire: false, message });
            },
            None => {
                if !same(asked.release.as_str(), self.release.as_str()) {
                    // One side is not a version that can be read. Nothing says
                    // which is newer: the session's binary is the one on disk.
                    let message = "the running daemon is agmem ".to_owned().concat(
                        self.release.as_str(),
                    ).concat(" and this session is agmem ").concat(asked.release.as_str()).concat(
                        "; the daemon is retiring so a fresh one can serve this release.",
                    );
                    return Err(Refusal { retire: true, message });
                }
            },
            Some(Order::Equal) => {},
        }
        if asked.version != self.version {
            // Same release but different protocol should be impossible; if it
            // happens anyway, the newer wire wins the socket.
            let message = "this session speaks agmem daemon protocol v".to_owned().concat(
                to_decimal(asked.version as u64).as_str(),
            ).concat(" and the running daemon speaks v").concat(
                to_decimal(self.version as u64).as_str(),
            ).concat(
                "; the daemon is an older or newer agmem. Stop it and let this one start a fresh daemon.",
            );
            return Err(Refusal { retire: asked.version > self.version, message });
        }
        if asked.db_url != self.db_url {
            let message = "the running daemon holds ".to_owned().concat(
                self.db_url.as_str(),
            ).concat(" and this session asked for ").concat(asked.db_url.as_str()).concat(
                ". One data dir is one store; pass --no-daemon, or point both at the same --db.",
            );
            return Err(Refusal { retire: false, message });
        }
        if asked.embedder != self.embedder {
            let message = "the running daemon embeds with ".to_owned().concat(
                self.embedder.as_str(),
            ).concat(" and this session asked for ").concat(asked.embedder.as_str()).concat(
                ". Vectors from two models cannot be compared; stop the daemon or match --embedder.",
            );
            return Err(Refusal { retire: false, message });
        }
        Ok(())
    }

    /// Refuse a session that expects something this daemon is not serving.
    /// Two daemons whose releases can be read, or are the same text, never
    /// step aside for each other, and a session of the daemon's own release is
    /// taken unless the protocol, the store or the embedder differs.
    ///
    /// # Errors
    /// When the release, the protocol version, the store or the embedder
    /// disagree. The message is the session's to read, so it names both sides;
    /// `retire` says whether this daemon should hand the socket over.
    pub fn accept(&self, asked: &Self) -> (result: Result<(), Refusal>)
        ensures
            match result {
                Ok(_) => objection(
                    *self,
                    *asked,
                    release_order(asked.release@, self.release@),
                ) is None,
                Err(refusal) => objection(
                    *self,
                    *asked,
                    release_order(asked.release@, self.release@),
                ) == Some((refusal.retire, refusal.message@)),
            },
            release_order(asked.release@, self.release@) is Some || asked.release@ == self.release@
                ==> !(retires_for(*self, *asked) && retires_for(*asked, *self)),
            agrees(*self, *asked) ==> result is Ok,
            asked.release@ == self.release@ && asked.version == self.version && !agrees(
                *self,
                *asked,
            ) ==> (result matches Err(refusal) && !refusal.retire),
    {
        let order = newer(asked.release.as_str(), self.release.as_str());
        self.accept_release(asked, order)
    }
}

impl Clone for Handshake {
    fn clone(&self) -> (result: Self)
        ensures
            result.version == self.version,
            result.release == self.release,
            result.db_url == self.db_url,
            result.embedder == self.embedder,
            result.space == self.space,
            result.pool == self.pool,
            result.max_k == self.max_k,
            result.tool_desc@ == self.tool_desc@,
    {
        Handshake {
            version: self.version,
            release: self.release.clone(),
            db_url: self.db_url.clone(),
            embedder: self.embedder,
            space: self.space.clone(),
            pool: self.pool,
            max_k: self.max_k,
            tool_desc: self.tool_desc.clone(),
        }
    }
}

/// Why a daemon turned a session away, and whether it is stepping aside.
///
/// `retire` is the difference between "you are misconfigured" (the daemon
/// stays, the session gets an error) and "I am stale" (the daemon shuts down
/// so the refused session can start one from its own binary).
#[derive(Debug, PartialEq, Eq)]
pub struct Refusal {
    /// What to tell the session. Names both sides and the way out.
    pub message: String,
    /// Whether the daemon shuts down after refusing.
    pub retire: bool,
}

impl Refusal {
    /// What a session hears when it attaches to a daemon another session
    /// already retired: the same "wait for the fresh one" the first one got,
    /// so it waits instead of coming up on a socket about to close.
    pub fn already_retiring() -> (refusal: Self)
        ensures
            refusal.retire,
            refusal.message@ == "the running daemon (agmem "@ + RELEASE@
                + ") is retiring for a newer release; this session waits for the fresh one."@,
    {
        let message = "the running daemon (agmem ".to_owned().concat(RELEASE).concat(
            ") is retiring for a newer release; this session waits for the fresh one.",
        );
        Refusal { retire: true, message }
    }
}

/// The one line the daemon writes back after reading a [`Handshake`], before
/// any MCP flows. Without it a refusal would be an end of file the session
/// pumps through and exits cleanly on.
#[derive(Debug, PartialEq, Eq)]
pub struct Ack {
    /// Whether the daemon accepted the session. When `true` the rest of the
    /// stream is MCP; when `false`, `error` says why and the stream ends.
    pub ok: bool,
    /// The refusal, worded for the session that has to act on it.
    pub error: Option<String>,
    /// The daemon is shutting down so the session can start a fresh one.
    pub retiring: bool,
}

impl Ack {
    /// The daemon took the session.
    pub fn accepted() -> (ack: Self)
        ensures
            ack.ok,
            ack.error is None,
            !ack.retiring,
    {
        Ack { ok: true, error: None, retiring: false }
    }

    /// The daemon turned the session away.
    pub fn refused(refusal: &Refusal) -> (ack: Self)
        ensures
            !ack.ok,
            ack.error == Some(refusal.message),
            ack.retiring == refusal.retire,
    {
        Ack { ok: false, error: Some(refusal.message.clone()), retiring: refusal.retire }
    }
}

/// The configuration a session is served under: the daemon's, with what the
/// session brought along.
pub fn session_config(daemon: &Config, asked: &Handshake) -> (cfg: Config)
    ensures
        same_but_session(cfg, *daemon),
        cfg.space == asked.space,
        cfg.pool == asked.pool,
        cfg.max_k == asked.max_k,
        cfg.tool_desc@ == asked.tool_desc@,
{
    let mut cfg = daemon.clone();
    cfg.space = asked.space.clone();
    cfg.pool = asked.pool;
    cfg.max_k = asked.max_k;
    cfg.tool_desc = asked.tool_desc.clone();
    cfg
}

/// A session that agrees with a daemon on release, protocol, store and
/// embedder is taken, whatever project it comes from and whether or not the
/// release can be read as a version.
pub proof fn a_different_project_is_taken(
    daemon: Handshake,
    asked: Handshake,
    order: Option<Order>,
)
    requires
        agrees(daemon, asked),
        order is None || order == Some(Order::Equal),
    ensures
        objection(daemon, asked, order) is None,
{
}

/// A session of the daemon's own release that asks for another store or
/// another embedder is refused without costing anybody else the daemon.
pub proof fn a_misconfigured_session_does_not_retire_the_daemon(
    daemon: Handshake,
    asked: Handshake,
    order: Option<Order>,
)
    requires
        standing(order, asked.release@, daemon.release@) == Some(Order::Equal),
        asked.version == daemon.version,
        asked.db_url@ != daemon.db_url@ || asked.embedder != daemon.embedder,
    ensures
        objection(daemon, asked, order) matches Some((retire, _)) && !retire,
{
}

/// The daemon defers to a newer release and to no older one; two that cannot
/// be ranked and differ let the session win.
pub proof fn the_daemon_defers_to_a_newer_release(
    daemon: Handshake,
    asked: Handshake,
    order: Option<Order>,
)
    ensures
        order == Some(Order::Greater) ==> (objection(daemon, asked, order) matches Some((retire, _))
            && retire),
        order == Some(Order::Less) ==> (objection(daemon, asked, order) matches Some((retire, _))
            && !retire),
        order is None && asked.release@ != daemon.release@ ==> (objection(daemon, asked, order)
            matches Some((retire, _)) && retire),
        order == Some(Order::Equal) && asked.version > daemon.version ==> (objection(
            daemon,
            asked,
            order,
        ) matches Some((retire, _)) && retire),
        order == Some(Order::Equal) && asked.version < daemon.version ==> (objection(
            daemon,
            asked,
            order,
        ) matches Some((retire, _)) && !retire),
{
}

/// A session is taken only where protocol, store and embedder are the
/// daemon's, and neither release is the newer one.
pub proof fn a_session_is_taken_only_in_agreement(
    daemon: Handshake,
    asked: Handshake,
    order: Option<Order>,
)
    requires
        objection(daemon, asked, order) is None,
    ensures
        asked.version == daemon.version,
        asked.db_url@ == daemon.db_url@,
        asked.embedder == daemon.embedder,
        order == Some(Order::Equal) || (order is None && asked.release@ == daemon.release@),
{
}

/// What a refused session is told names what the two sides differ in: both
/// releases, both protocols, both stores or both embedders.
pub proof fn a_refusal_names_both_sides(
    daemon: Handshake,
    asked: Handshake,
    order: Option<Order>,
)
    ensures
        standing(order, asked.release@, daemon.release@) != Some(Order::Equal) ==> (objection(
            daemon,
            asked,
            order,
        ) matches Some((_, message)) && occurs(message, asked.release@) && occurs(
            message,
            daemon.release@,
        )),
        standing(order, asked.release@, daemon.release@) == Some(Order::Equal) && asked.version
            != daemon.version ==> (objection(daemon, asked, order) matches Some((_, message))
            && occurs(message, "v"@ + decimal(asked.version as nat)) && occurs(
            message,
            "v"@ + decimal(daemon.version as nat),
        )),
        standing(order, asked.release@, daemon.release@) == Some(Order::Equal) && asked.version
            == daemon.version && asked.db_url@ != daemon.db_url@ ==> (objection(
            daemon,
            asked,
            order,
        ) matches Some((_, message)) && occurs(message, asked.db_url@) && occurs(
            message,
            daemon.db_url@,
        )),
        standing(order, asked.release@, daemon.release@) == Some(Order::Equal) && asked.version
            == daemon.version && asked.db_url@ == daemon.db_url@ && asked.embedder
            != daemon.embedder ==> (objection(daemon, asked, order) matches Some((_, message))
            && occurs(message, asked.embedder.spelling()) && occurs(
            message,
            daemon.embedder.spelling(),
        )),
{
    lemma_two_occur(
        "the running daemon is agmem "@,
        daemon.release@,
        " and this session is agmem "@,
        asked.release@,
        "; the daemon is retiring so a fresh one can serve this release. Sessions still attached to it need a restart."@,
    );
    lemma_two_occur(
        "the running daemon is agmem "@,
        daemon.release@,
        " and this session is an older agmem "@,
        asked.release@,
        "; the daemon keeps serving the newer release. Run this session from the same agmem, or pass --no-daemon."@,
    );
    lemma_two_occur(
        "the running daemon is agmem "@,
        daemon.release@,
        " and this session is agmem "@,
        asked.release@,
        "; the daemon is retiring so a fresh one can serve this release."@,
    );
    lemma_versions_occur(decimal(asked.version as nat), decimal(daemon.version as nat));
    lemma_two_occur(
        "the running daemon holds "@,
        daemon.db_url@,
        " and this session asked for "@,
        asked.db_url@,
        ". One data dir is one store; pass --no-daemon, or point both at the same --db."@,
    );
    lemma_two_occur(
        "the running daemon embeds with "@,
        daemon.embedder.spelling(),
        " and this session asked for "@,
        asked.embedder.spelling(),
        ". Vectors from two models cannot be compared; stop the daemon or match --embedder."@,
    );
}

proof fn lemma_two_occur(
    a: Seq<char>,
    first: Seq<char>,
    b: Seq<char>,
    second: Seq<char>,
    c: Seq<char>,
)
    ensures
        occurs(a + first + b + second + c, first),
        occurs(a + first + b + second + c, second),
{
    let whole = a + first + b + second + c;
    assert(whole =~= a + first + (b + second + c));
    what_is_put_between_occurs(a, first, b + second + c);
    what_is_put_between_occurs(a + first + b, second, c);
}

proof fn lemma_versions_occur(asked: Seq<char>, daemon: Seq<char>)
    ensures
        ({
            let message = "this session speaks agmem daemon protocol v"@ + asked
                + " and the running daemon speaks v"@ + daemon
                + "; the daemon is an older or newer agmem. Stop it and let this one start a fresh daemon."@;
            occurs(message, "v"@ + asked) && occurs(message, "v"@ + daemon)
        }),
{
    let a = "this session speaks agmem daemon protocol "@;
    let b = " and the running daemon speaks "@;
    let c = "; the daemon is an older or newer agmem. Stop it and let this one start a fresh daemon."@;
    assert("this session speaks agmem daemon protocol v"@ =~= a + "v"@) by {
        reveal_strlit("this session speaks agmem daemon protocol v");
        reveal_strlit("this session speaks agmem daemon protocol ");
        reveal_strlit("v");
    }
    assert(" and the running daemon speaks v"@ =~= b + "v"@) by {
        reveal_strlit(" and the running daemon speaks v");
        reveal_strlit(" and the running daemon speaks ");
        reveal_strlit("v");
    }
    lemma_two_occur(a, "v"@ + asked, b, "v"@ + daemon, c);
    assert((a + "v"@) + asked + (b + "v"@) + daemon + c =~= a + ("v"@ + asked) + b + ("v"@ + daemon)
        + c);
}

/// Every data dir has a socket of its own, in it.
pub proof fn every_data_dir_has_its_own_socket(data_dir: Seq<char>, other: Seq<char>)
    requires
        data_dir.len() > 0,
        other.len() > 0,
        data_dir.last() != '/',
        other.last() != '/',
    ensures
        socket_in(data_dir) == data_dir + "/agmem.sock"@,
        socket_in(data_dir) == socket_in(other) ==> data_dir == other,
{
    assert(SOCKET_FILE@ == "agmem.sock"@);
    reveal_strlit("/agmem.sock");
    reveal_strlit("agmem.sock");
    assert("agmem.sock"@[0] == 'a');
    assert(seq!['/'] + "agmem.sock"@ =~= "/agmem.sock"@);
    assert(socket_in(data_dir) =~= data_dir + "/agmem.sock"@);
    assert(socket_in(other) =~= other + "/agmem.sock"@);
    if socket_in(data_dir) == socket_in(other) {
        assert(data_dir =~= socket_in(data_dir).take(data_dir.len() as int));
        assert(other =~= socket_in(other).take(other.len() as int));
    }
}

/// The daemon steps aside for a session exactly where its objection says so.
pub proof fn the_daemon_steps_aside_where_it_says_so(
    daemon: Handshake,
    asked: Handshake,
    order: Order,
)
    requires
        release_order(asked.release@, daemon.release@) == Some(order),
    ensures
        retires_for(daemon, asked) <==> order == Order::Greater || (order == Order::Equal
            && asked.version > daemon.version),
        agrees(daemon, asked) && order == Order::Equal ==> !retires_for(daemon, asked),
{
}

/// A store is shared through a daemon unless it is asked not to be, lives on a
/// server, or only in memory.
pub proof fn a_store_is_shared_unless(cfg: Config)
    ensures
        shared(cfg) ==> !cfg.no_daemon && !remote(cfg.db_url@) && !starts_with(
            cfg.db_url@,
            "mem://"@,
        ),
        starts_with(cfg.db_url@, "surrealkv://"@) && !cfg.no_daemon ==> shared(cfg),
{
    reveal_strlit("surrealkv://");
    reveal_strlit("mem://");
    if starts_with(cfg.db_url@, "surrealkv://"@) {
        let url = cfg.db_url@;
        assert(url.subrange(0, 12)[0] == 's');
        let rest = url.skip(12);
        assert(url =~= url.subrange(0, 12) + rest);
        a_server_address_is_remote(rest);
        if starts_with(url, "mem://"@) {
            assert(url.subrange(0, 6)[0] == 'm');
        }
    }
}

} // verus!
