//! Settings: what the flags and the environment come to.

use vstd::prelude::*;

use crate::domain::model::SpaceName;
use crate::embed::accelerator::Accelerator;
use crate::embed::model::Model;
use crate::server::args::{same_command, CliCommand};
use crate::server::tools::{collected, pair_texts, ToolDescriptions};
use crate::text::chars::copy_text;
use crate::text::path::{join_path, joined_path};
use crate::text::search::{ends_with, has_prefix, starts_with};

verus! {

/// Embedding backend selector.
#[derive(Debug, Clone, Copy, PartialEq, Eq, Structural)]
pub enum EmbedderKind {
    /// The local ONNX model.
    Fastembed,
    /// The local llama.cpp runtime.
    Llama,
    /// An OpenAI-compatible endpoint.
    Api,
    /// No embeddings at all. Not a supported deployment: it exists so a test
    /// can start the real binary where a model download is forbidden.
    Noop,
}

impl EmbedderKind {
    /// The spelling `--embedder` takes.
    pub open spec fn spelling(self) -> Seq<char> {
        match self {
            EmbedderKind::Fastembed => "fastembed"@,
            EmbedderKind::Llama => "llama"@,
            EmbedderKind::Api => "api"@,
            EmbedderKind::Noop => "none"@,
        }
    }

    /// The spelling `--embedder` takes, which is also what crosses the daemon
    /// handshake and what a freshly spawned daemon is started with.
    pub fn as_str(self) -> (text: &'static str)
        ensures
            text@ == self.spelling(),
            self == EmbedderKind::Fastembed ==> text@ == "fastembed"@,
            self == EmbedderKind::Llama ==> text@ == "llama"@,
            self == EmbedderKind::Api ==> text@ == "api"@,
            self == EmbedderKind::Noop ==> text@ == "none"@,
    {
        match self {
            EmbedderKind::Fastembed => "fastembed",
            EmbedderKind::Llama => "llama",
            EmbedderKind::Api => "api",
            EmbedderKind::Noop => "none",
        }
    }
}

/// Which tools a session lists.
#[derive(Debug, Clone, Copy, PartialEq, Eq, Structural)]
pub enum ToolGroup {
    /// Without the tools the shell serves.
    Core,
    /// All of them.
    All,
}

/// The remote endpoint `--embedder api` embeds through.
#[derive(Debug, PartialEq, Eq)]
pub struct ApiArgs {
    pub url: String,
    pub model: String,
}

/// The command line as given, before defaults are resolved.
#[derive(Debug)]
pub struct Cli {
    /// Data directory. The platform data dir by default.
    pub data: Option<String>,
    /// Database connection string. `surrealkv://<data>/agmem.db` by default.
    pub db: Option<String>,
    /// Root username for a remote server.
    pub db_user: Option<String>,
    /// Root password for a remote server; pair of the username.
    pub db_pass: Option<String>,
    /// Space served by this instance. Derived from the directory by default.
    pub space: Option<SpaceName>,
    /// Embedding backend.
    pub embedder: EmbedderKind,
    /// Which model the local backend runs.
    pub model: Model,
    /// Where it runs.
    pub accelerator: Accelerator,
    /// The remote endpoint of the `api` backend.
    pub api: ApiArgs,
    /// Retrieval candidate pool size.
    pub pool: u16,
    /// Ceiling for recall `k`.
    pub max_k: u16,
    /// Which tools a session lists.
    pub tools: ToolGroup,
    /// Log filter.
    pub log: String,
    /// Append logs to this file instead of stderr.
    pub log_file: Option<String>,
    /// Run the installation self-check and exit.
    pub doctor: bool,
    /// Open the store in this process instead of through the shared daemon.
    pub no_daemon: bool,
    /// Be the shared store daemon.
    pub daemon_serve: bool,
    /// This daemon replaces one that retired for its release.
    pub took_over: bool,
    /// Seconds the shared daemon stays up with no sessions attached. 0 keeps
    /// it until the machine restarts.
    pub idle_timeout: u64,
    /// One-shot mode instead of serving MCP.
    pub command: Option<CliCommand>,
}

/// What resolving the settings needs to know of the surroundings.
#[derive(Debug)]
pub struct Surroundings {
    /// The platform's data directory, where it has one.
    pub platform_dir: Option<String>,
    /// The space the current directory stands for.
    pub space: SpaceName,
    /// The environment's variables.
    pub vars: Vec<(String, String)>,
}

/// Fully resolved configuration: all defaults applied.
///
/// Cloneable because the daemon builds one per attached session: the store is
/// shared, the space and the retrieval limits are not.
#[derive(Debug)]
pub struct Config {
    pub data_dir: String,
    pub db_url: String,
    /// Root signin presented to a remote server; `None` on embedded engines.
    pub db_user: Option<String>,
    pub db_pass: Option<String>,
    pub space: SpaceName,
    pub embedder: EmbedderKind,
    pub model: Model,
    pub accelerator: Accelerator,
    pub api: ApiArgs,
    pub pool: u16,
    pub max_k: u16,
    /// What this deployment says its tools are for, where it disagrees with
    /// the built-in wording.
    pub tool_desc: ToolDescriptions,
    pub tools: ToolGroup,
    pub log: String,
    pub log_file: Option<String>,
    pub doctor: bool,
    pub no_daemon: bool,
    pub daemon_serve: bool,
    pub took_over: bool,
    pub idle_timeout: u64,
    /// The one-shot subcommand this run is, if it is one.
    pub command: Option<CliCommand>,
}

/// Two optional commands ask for the same.
pub open spec fn same_choice(a: Option<CliCommand>, b: Option<CliCommand>) -> bool {
    match (a, b) {
        (Some(a), Some(b)) => same_command(a, b),
        (None, None) => true,
        _ => false,
    }
}

/// Two configurations agree on everything but what a session brings along.
pub open spec fn same_but_session(a: Config, b: Config) -> bool {
    &&& a.data_dir == b.data_dir
    &&& a.db_url == b.db_url
    &&& a.db_user == b.db_user
    &&& a.db_pass == b.db_pass
    &&& a.embedder == b.embedder
    &&& a.model == b.model
    &&& a.accelerator == b.accelerator
    &&& a.api == b.api
    &&& a.tools == b.tools
    &&& a.log == b.log
    &&& a.log_file == b.log_file
    &&& a.doctor == b.doctor
    &&& a.no_daemon == b.no_daemon
    &&& a.daemon_serve == b.daemon_serve
    &&& a.took_over == b.took_over
    &&& a.idle_timeout == b.idle_timeout
    &&& same_choice(a.command, b.command)
}

impl Clone for Config {
    fn clone(&self) -> (result: Self)
        ensures
            same_but_session(result, *self),
            result.space == self.space,
            result.pool == self.pool,
            result.max_k == self.max_k,
            result.tool_desc@ == self.tool_desc@,
    {
        Config {
            data_dir: self.data_dir.clone(),
            db_url: self.db_url.clone(),
            db_user: copy_text(&self.db_user),
            db_pass: copy_text(&self.db_pass),
            space: self.space.clone(),
            embedder: self.embedder,
            model: self.model,
            accelerator: self.accelerator,
            api: ApiArgs { url: self.api.url.clone(), model: self.api.model.clone() },
            pool: self.pool,
            max_k: self.max_k,
            tool_desc: self.tool_desc.clone(),
            tools: self.tools,
            log: self.log.clone(),
            log_file: copy_text(&self.log_file),
            doctor: self.doctor,
            no_daemon: self.no_daemon,
            daemon_serve: self.daemon_serve,
            took_over: self.took_over,
            idle_timeout: self.idle_timeout,
            command: match &self.command {
                Some(command) => Some(command.clone()),
                None => None,
            },
        }
    }
}

/// A connection string that names a database in another process.
pub open spec fn remote(url: Seq<char>) -> bool {
    ||| starts_with(url, "ws://"@)
    ||| starts_with(url, "wss://"@)
    ||| starts_with(url, "http://"@)
    ||| starts_with(url, "https://"@)
}

/// Whether `url` names a database in another process: no local lock needed.
pub fn is_remote(url: &str) -> (result: bool)
    ensures
        result == remote(url@),
        result == (starts_with(url@, "ws://"@) || starts_with(url@, "wss://"@) || starts_with(
            url@,
            "http://"@,
        ) || starts_with(url@, "https://"@)),
{
    has_prefix(url, "ws://") || has_prefix(url, "wss://") || has_prefix(url, "http://")
        || has_prefix(url, "https://")
}

/// The root signin to present to a remote server.
#[derive(Debug, Clone, Copy)]
pub struct Credentials<'a> {
    pub user: &'a str,
    pub pass: &'a str,
}

impl Config {
    /// Whether the database lives in another process: no local lock needed.
    pub fn db_is_remote(&self) -> (result: bool)
        ensures
            result == remote(self.db_url@),
    {
        is_remote(self.db_url.as_str())
    }

    /// The root signin to present to a remote server, when this deployment
    /// set one. Embedded engines have no signin, so never any credentials.
    pub fn db_credentials(&self) -> (found: Option<Credentials<'_>>)
        ensures
            match found {
                Some(credentials) => remote(self.db_url@) && (self.db_user matches Some(user)
                    && user@ == credentials.user@) && (self.db_pass matches Some(pass) && pass@
                    == credentials.pass@),
                None => !remote(self.db_url@) || self.db_user is None || self.db_pass is None,
            },
    {
        match (&self.db_user, &self.db_pass) {
            (Some(user), Some(pass)) => if self.db_is_remote() {
                Some(Credentials { user: user.as_str(), pass: pass.as_str() })
            } else {
                None
            },
            _ => None,
        }
    }
}

/// The data directory: as given, else the platform's.
pub open spec fn data_dir_of(cli: Cli, around: Surroundings) -> Option<Seq<char>> {
    match cli.data {
        Some(dir) => Some(dir@),
        None => match around.platform_dir {
            Some(dir) => Some(dir@),
            None => None,
        },
    }
}

/// The connection string: as given, else the embedded store in the data
/// directory.
pub open spec fn db_url_of(cli: Cli, data_dir: Seq<char>) -> Seq<char> {
    match cli.db {
        Some(url) => url@,
        None => "surrealkv://"@ + joined_path(data_dir, "agmem.db"@),
    }
}

/// One credential without the other, for a server that asks for both.
pub open spec fn half_a_pair(cli: Cli, data_dir: Seq<char>) -> bool {
    remote(db_url_of(cli, data_dir)) && (cli.db_user is Some) != (cli.db_pass is Some)
}

/// What the overrides in the environment come to.
pub open spec fn overrides_of(around: Surroundings) -> Result<
    Map<Seq<char>, Seq<char>>,
    Seq<char>,
> {
    collected(Map::empty(), pair_texts(around.vars@))
}

impl Cli {
    /// Apply the defaults.
    ///
    /// # Errors
    /// When there is no data directory, when one credential comes without the
    /// other, or when an override of a tool description makes no sense: the
    /// first of these that holds.
    pub fn resolve(self, around: Surroundings) -> (result: Result<Config, String>)
        ensures
            match result {
                Ok(cfg) => {
                    &&& data_dir_of(self, around) == Some(cfg.data_dir@)
                    &&& cfg.db_url@ == db_url_of(self, cfg.data_dir@)
                    &&& !half_a_pair(self, cfg.data_dir@)
                    &&& overrides_of(around) == Ok::<Map<Seq<char>, Seq<char>>, Seq<char>>(
                        cfg.tool_desc@,
                    )
                    &&& cfg.space@ == match self.space {
                        Some(space) => space@,
                        None => around.space@,
                    }
                    &&& cfg.db_user == self.db_user
                    &&& cfg.db_pass == self.db_pass
                    &&& cfg.embedder == self.embedder
                    &&& cfg.model == self.model
                    &&& cfg.accelerator == self.accelerator
                    &&& cfg.api == self.api
                    &&& cfg.pool == self.pool
                    &&& cfg.max_k == self.max_k
                    &&& cfg.tools == self.tools
                    &&& cfg.log == self.log
                    &&& cfg.log_file == self.log_file
                    &&& cfg.doctor == self.doctor
                    &&& cfg.no_daemon == self.no_daemon
                    &&& cfg.daemon_serve == self.daemon_serve
                    &&& cfg.took_over == self.took_over
                    &&& cfg.idle_timeout == self.idle_timeout
                    &&& cfg.command == self.command
                },
                Err(message) => match data_dir_of(self, around) {
                    None => message@
                        == "cannot determine the platform data directory; pass --data"@,
                    Some(dir) => if half_a_pair(self, dir) {
                        message@
                            == "AGMEM_DB_USER and AGMEM_DB_PASS come as a pair: one without the other would reach the server unauthenticated and be refused there. Set both or neither."@
                    } else {
                        overrides_of(around) == Err::<Map<Seq<char>, Seq<char>>, Seq<char>>(
                            message@,
                        )
                    },
                },
            },
    {
        let data_dir = match self.data {
            Some(dir) => dir,
            None => match around.platform_dir {
                Some(dir) => dir,
                None => {
                    return Err(
                        "cannot determine the platform data directory; pass --data".to_owned(),
                    );
                },
            },
        };
        let db_url = match self.db {
            Some(url) => url,
            None => "surrealkv://".to_owned().concat(
                join_path(data_dir.as_str(), "agmem.db").as_str(),
            ),
        };
        if is_remote(db_url.as_str()) && self.db_user.is_some() != self.db_pass.is_some() {
            return Err(
                "AGMEM_DB_USER and AGMEM_DB_PASS come as a pair: one without the other would reach the server unauthenticated and be refused there. Set both or neither.".to_owned(),
            );
        }
        let space = match self.space {
            Some(space) => space,
            None => around.space,
        };
        let tool_desc = match ToolDescriptions::collect(around.vars) {
            Ok(made) => made,
            Err(message) => {
                return Err(message);
            },
        };
        Ok(
            Config {
                data_dir,
                db_url,
                db_user: self.db_user,
                db_pass: self.db_pass,
                space,
                embedder: self.embedder,
                model: self.model,
                accelerator: self.accelerator,
                api: self.api,
                pool: self.pool,
                max_k: self.max_k,
                tool_desc,
                tools: self.tools,
                log: self.log,
                log_file: self.log_file,
                doctor: self.doctor,
                no_daemon: self.no_daemon,
                daemon_serve: self.daemon_serve,
                took_over: self.took_over,
                idle_timeout: self.idle_timeout,
                command: self.command,
            },
        )
    }
}

/// What is given wins over what is found: the data dir over the platform's,
/// and the store over the one in the data dir.
pub proof fn what_is_given_wins(cli: Cli, around: Surroundings, data_dir: Seq<char>)
    ensures
        cli.data matches Some(dir) ==> data_dir_of(cli, around) == Some(dir@),
        cli.data is None ==> (around.platform_dir matches Some(dir) ==> data_dir_of(cli, around)
            == Some(dir@)),
        data_dir_of(cli, around) is None <==> cli.data is None && around.platform_dir is None,
        cli.db matches Some(url) ==> db_url_of(cli, data_dir) == url@,
        cli.db is None ==> starts_with(db_url_of(cli, data_dir), "surrealkv://"@) && ends_with(
            db_url_of(cli, data_dir),
            "agmem.db"@,
        ) && !remote(db_url_of(cli, data_dir)),
        cli.db is None && data_dir.len() > 0 && data_dir.last() != '/' ==> db_url_of(cli, data_dir)
            == "surrealkv://"@ + data_dir + "/agmem.db"@,
{
    reveal_strlit("surrealkv://");
    reveal_strlit("agmem.db");
    reveal_strlit("/agmem.db");
    reveal_strlit("ws://");
    reveal_strlit("wss://");
    reveal_strlit("http://");
    reveal_strlit("https://");
    if cli.db is None {
        let path = joined_path(data_dir, "agmem.db"@);
        let url = db_url_of(cli, data_dir);
        assert("agmem.db"@[0] == 'a');
        assert(url.subrange(0, 12) =~= "surrealkv://"@);
        assert(url.subrange(url.len() - 8, url.len() as int) =~= "agmem.db"@);
        assert(url[0] == 's');
        if starts_with(url, "ws://"@) {
            assert(url.subrange(0, 5)[0] == 'w');
        }
        if starts_with(url, "wss://"@) {
            assert(url.subrange(0, 6)[0] == 'w');
        }
        if starts_with(url, "http://"@) {
            assert(url.subrange(0, 7)[0] == 'h');
        }
        if starts_with(url, "https://"@) {
            assert(url.subrange(0, 8)[0] == 'h');
        }
        if data_dir.len() > 0 && data_dir.last() != '/' {
            assert(seq!['/'] + "agmem.db"@ =~= "/agmem.db"@);
            assert(url =~= "surrealkv://"@ + data_dir + "/agmem.db"@);
        }
    }
}

/// A store is remote where its address is one of a server, by any of the four
/// schemes, whatever stands behind it.
pub proof fn a_server_address_is_remote(rest: Seq<char>)
    ensures
        remote("ws://"@ + rest),
        remote("wss://"@ + rest),
        remote("http://"@ + rest),
        remote("https://"@ + rest),
        !remote("surrealkv://"@ + rest),
        !remote("mem://"@ + rest),
{
    reveal_strlit("ws://");
    reveal_strlit("wss://");
    reveal_strlit("http://");
    reveal_strlit("https://");
    reveal_strlit("surrealkv://");
    reveal_strlit("mem://");
    assert(("ws://"@ + rest).subrange(0, 5) =~= "ws://"@);
    assert(("wss://"@ + rest).subrange(0, 6) =~= "wss://"@);
    assert(("http://"@ + rest).subrange(0, 7) =~= "http://"@);
    assert(("https://"@ + rest).subrange(0, 8) =~= "https://"@);
    lemma_not_remote("surrealkv://"@ + rest);
    lemma_not_remote("mem://"@ + rest);
}

proof fn lemma_not_remote(url: Seq<char>)
    requires
        url.len() > 0,
        url[0] != 'w' && url[0] != 'h',
    ensures
        !remote(url),
{
    reveal_strlit("ws://");
    reveal_strlit("wss://");
    reveal_strlit("http://");
    reveal_strlit("https://");
    if starts_with(url, "ws://"@) {
        assert(url.subrange(0, 5)[0] == 'w');
    }
    if starts_with(url, "wss://"@) {
        assert(url.subrange(0, 6)[0] == 'w');
    }
    if starts_with(url, "http://"@) {
        assert(url.subrange(0, 7)[0] == 'h');
    }
    if starts_with(url, "https://"@) {
        assert(url.subrange(0, 8)[0] == 'h');
    }
}

/// Credentials come as a pair, where a server asks for them: a local store
/// takes none amiss.
pub proof fn credentials_come_as_a_pair(cli: Cli, data_dir: Seq<char>)
    ensures
        cli.db_user is Some && cli.db_pass is Some ==> !half_a_pair(cli, data_dir),
        cli.db_user is None && cli.db_pass is None ==> !half_a_pair(cli, data_dir),
        !remote(db_url_of(cli, data_dir)) ==> !half_a_pair(cli, data_dir),
        remote(db_url_of(cli, data_dir)) && cli.db_user is Some && cli.db_pass is None
            ==> half_a_pair(cli, data_dir),
        remote(db_url_of(cli, data_dir)) && cli.db_user is None && cli.db_pass is Some
            ==> half_a_pair(cli, data_dir),
{
}

/// No two embedders are spelled alike.
pub proof fn embedders_are_told_apart(a: EmbedderKind, b: EmbedderKind)
    requires
        a.spelling() == b.spelling(),
    ensures
        a == b,
{
    reveal_strlit("fastembed");
    reveal_strlit("llama");
    reveal_strlit("api");
    reveal_strlit("none");
    assert("fastembed"@.len() == 9 && "llama"@.len() == 5 && "api"@.len() == 3 && "none"@.len()
        == 4);
}

/// Two configurations that differ only in what a session brings are on the
/// same data dir and store, with the same credentials, model, tools, log and
/// mode.
pub proof fn a_session_brings_nothing_else(a: Config, b: Config)
    requires
        same_but_session(a, b),
    ensures
        a.data_dir@ == b.data_dir@ && a.db_url@ == b.db_url@,
        a.db_user == b.db_user && a.db_pass == b.db_pass,
        a.embedder == b.embedder && a.model == b.model && a.accelerator == b.accelerator,
        a.api == b.api && a.tools == b.tools,
        a.log@ == b.log@ && a.log_file == b.log_file,
        a.doctor == b.doctor && a.no_daemon == b.no_daemon,
        a.daemon_serve == b.daemon_serve && a.took_over == b.took_over,
        a.idle_timeout == b.idle_timeout,
        a.command is Some <==> b.command is Some,
        a.command matches Some(x) ==> (b.command matches Some(y) && same_command(x, y)),
{
}

/// No command is the same choice as no command, and not the same as any.
pub proof fn no_command_is_a_choice_too(command: CliCommand, other: CliCommand)
    ensures
        same_choice(None, None),
        !same_choice(Some(command), None) && !same_choice(None, Some(command)),
        same_choice(Some(command), Some(other)) <==> same_command(command, other),
{
}

} // verus!
