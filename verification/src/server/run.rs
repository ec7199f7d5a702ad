//! The ways to run.

use vstd::prelude::*;

use crate::server::args::{same_verb, CliCommand, ContextArgs, DocVerb, HookEvent, ReindexArgs};
use crate::server::config::Config;
use crate::server::daemon::{shared, wanted};

verus! {

/// A way to run.
#[derive(Debug, PartialEq, Eq)]
pub enum Mode {
    /// Be the process that owns the store.
    Daemon,
    /// Check the installation and exit.
    Doctor,
    /// Re-embed the store and exit.
    Reindex(ReindexArgs),
    /// Print the context block and exit.
    Context(ContextArgs),
    /// Answer a hook event and exit.
    Hook(HookEvent),
    /// Run a document verb and exit.
    Doc(DocVerb),
    /// Attach to the process that owns the store, starting it if needed.
    Attach,
    /// Open the store in this process.
    InProcess,
}

/// `mode` is the way to run: the daemon before anything else, the self-check
/// before any command, a command before a session, and a session shares the
/// store wherever it can. Only a Unix platform has a daemon.
pub open spec fn runs_as(cfg: Config, unix: bool, mode: Mode) -> bool {
    if cfg.daemon_serve && unix {
        mode is Daemon
    } else if cfg.doctor {
        mode is Doctor
    } else {
        match cfg.command {
            Some(CliCommand::Reindex(args)) => mode == Mode::Reindex(args),
            Some(CliCommand::Context(args)) => mode == Mode::Context(args),
            Some(CliCommand::Hook(args)) => mode == Mode::Hook(args.event),
            Some(CliCommand::Doc(args)) => (mode matches Mode::Doc(verb) && same_verb(
                verb,
                args.verb,
            )),
            None => if shared(cfg) && unix {
                mode is Attach
            } else {
                mode is InProcess
            },
        }
    }
}

/// The way to run under a configuration. A failure on the shared path exits
/// rather than falling back to opening the store: the fallback would be a
/// second writer on a single-writer store.
pub fn choose_mode(cfg: &Config, unix: bool) -> (mode: Mode)
    ensures
        runs_as(*cfg, unix, mode),
{
    if cfg.daemon_serve && unix {
        return Mode::Daemon;
    }
    if cfg.doctor {
        return Mode::Doctor;
    }
    match &cfg.command {
        Some(command) => match command.clone() {
            CliCommand::Reindex(args) => Mode::Reindex(args),
            CliCommand::Context(args) => Mode::Context(args),
            CliCommand::Hook(args) => Mode::Hook(args.event),
            CliCommand::Doc(args) => Mode::Doc(args.verb),
        },
        None => {
            if wanted(cfg) && unix {
                Mode::Attach
            } else {
                Mode::InProcess
            }
        },
    }
}

/// A session on a store that sessions share attaches to its daemon: it never
/// opens the store beside it.
pub proof fn a_shared_store_is_not_opened_by_a_session(cfg: Config, mode: Mode)
    requires
        runs_as(cfg, true, mode),
        shared(cfg),
        cfg.command is None,
        !cfg.doctor,
        !cfg.daemon_serve,
    ensures
        mode is Attach,
{
}

/// Each command is run as it was given, wherever nothing goes before it: the
/// daemon's own run, then the doctor.
pub proof fn a_command_is_run_as_given(cfg: Config, unix: bool, mode: Mode)
    requires
        runs_as(cfg, unix, mode),
    ensures
        cfg.daemon_serve && unix ==> mode is Daemon,
        mode is Daemon ==> cfg.daemon_serve && unix,
        cfg.doctor && !(cfg.daemon_serve && unix) ==> mode is Doctor,
        mode is Doctor ==> cfg.doctor,
        !cfg.doctor && !(cfg.daemon_serve && unix) ==> match cfg.command {
            Some(CliCommand::Reindex(args)) => mode == Mode::Reindex(args),
            Some(CliCommand::Context(args)) => mode == Mode::Context(args),
            Some(CliCommand::Hook(args)) => mode == Mode::Hook(args.event),
            Some(CliCommand::Doc(args)) => (mode matches Mode::Doc(verb) && same_verb(
                verb,
                args.verb,
            )),
            None => mode is Attach || mode is InProcess,
        },
        mode is Attach ==> unix && !cfg.no_daemon,
        cfg.command is None && !cfg.doctor && !cfg.daemon_serve ==> (mode is Attach <==> shared(cfg)
            && unix),
        !unix ==> !(mode is Attach),
{
}

} // verus!
