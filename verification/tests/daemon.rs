use agmem::domain::json::{parse, Json};
use agmem::domain::model::SpaceName;
use agmem::embed::accelerator::Accelerator;
use agmem::embed::model::Model;
use agmem::server::client::{
    after_attempt, after_death, closed_without_answer, judge, log_path, never_ready,
    never_started, poll, ready, spawn_args, starts_allowed, store_still_owned, wedged, AckLine,
    AckStep, Attached, Attempt, Ready, Takeover, MAX_ACK,
};
use agmem::server::config::{ApiArgs, Cli, Config, EmbedderKind, Surroundings, ToolGroup};
use agmem::server::daemon::{
    session_config, socket_path, spawn_lock_path, wanted, Ack, Handshake, Refusal,
    MAX_SOCKET_PATH, PROTOCOL_VERSION, RELEASE,
};
use agmem::server::lock::{already_owned, owner};
use agmem::server::release::{newer, Order};
use agmem::server::serve::{
    after_store_probe, answer, decide, store_lock_path, AcceptLoop, Event, Next, SessionEnd,
    StoreLock, Verdict,
};
use agmem::server::tools::ToolDescriptions;
use agmem::server::wire::{ack_line, handshake_line, overrides_line};

fn config(data_dir: &str) -> Config {
    Cli {
        data: Some(data_dir.to_owned()),
        db: None,
        db_user: None,
        db_pass: None,
        space: None,
        embedder: EmbedderKind::Llama,
        model: Model::default(),
        accelerator: Accelerator::Auto,
        api: ApiArgs {
            url: String::new(),
            model: String::new(),
        },
        pool: 64,
        max_k: 50,
        tools: ToolGroup::Core,
        log: "info".to_owned(),
        log_file: None,
        doctor: false,
        no_daemon: false,
        daemon_serve: false,
        took_over: false,
        idle_timeout: 600,
        command: None,
    }
    .resolve(Surroundings {
        platform_dir: None,
        space: SpaceName::new("project").unwrap(),
        vars: vec![],
    })
    .expect("resolve")
}

fn overrides(tool: &str, text: &str) -> ToolDescriptions {
    ToolDescriptions::from_pairs(vec![(tool.to_owned(), text.to_owned())])
}

/// The fields of a handshake line, read back.
fn read_handshake(line: &str) -> Handshake {
    let read = parse(line).expect("JSON");
    let text = |key: &str| read.get_str(key).expect("a text").to_owned();
    let number = |key: &str| read.get(key).and_then(Json::as_u64).expect("a number");
    let Some(Json::Object(tools)) = read.get("tool_desc") else {
        panic!("the overrides are an object");
    };
    Handshake {
        version: number("version") as u32,
        release: text("release"),
        db_url: text("db_url"),
        embedder: [
            EmbedderKind::Fastembed,
            EmbedderKind::Llama,
            EmbedderKind::Api,
            EmbedderKind::Noop,
        ]
        .into_iter()
        .find(|kind| kind.as_str() == text("embedder"))
        .expect("a backend"),
        space: SpaceName::new(&text("space")).expect("a space"),
        pool: number("pool") as u16,
        max_k: number("max_k") as u16,
        tool_desc: ToolDescriptions::from_pairs(
            tools
                .iter()
                .map(|(tool, text)| (tool.clone(), text.as_str().expect("a text").to_owned()))
                .collect(),
        ),
    }
}

#[test]
fn a_handshake_survives_the_wire() {
    let mut cfg = config("/tmp/agmem-test");
    // A description is several paragraphs, and the handshake is one line.
    cfg.tool_desc = overrides("context", "First.\n\nThen the rest.");
    let sent = Handshake::new(&cfg);
    let line = handshake_line(&sent);
    assert!(!line.contains('\n'), "the handshake is one line: {line}");
    assert_eq!(read_handshake(&line), sent);
}

#[test]
fn overrides_survive_the_daemon_handshake() {
    let sent = overrides("context", "Read this first.");
    assert_eq!(overrides_line(&sent), r#"{"context":"Read this first."}"#);
    let two = ToolDescriptions::from_pairs(vec![
        ("recall".to_owned(), "b".to_owned()),
        ("context".to_owned(), "a \"quoted\" \\ \u{1}".to_owned()),
    ]);
    assert_eq!(
        overrides_line(&two),
        r#"{"context":"a \"quoted\" \\ \u0001","recall":"b"}"#
    );
    assert_eq!(overrides_line(&ToolDescriptions::new()), "{}");
}

#[test]
fn a_daemon_refuses_a_session_that_expects_another_store() {
    let daemon = Handshake::new(&config("/tmp/agmem-test"));
    assert_eq!(daemon.version, PROTOCOL_VERSION);
    assert_eq!(daemon.release, RELEASE);

    let mut asked = daemon.clone();
    asked.space = SpaceName::new("other-project").expect("space");
    asked.pool = 8;
    asked.tool_desc = overrides("recall", "Ask the store first.");
    daemon
        .accept(&asked)
        .expect("a different project is the whole point of sharing");

    for (label, broken, retires) in [
        (
            "newer release",
            Handshake {
                release: "999.0.0".to_owned(),
                ..daemon.clone()
            },
            true,
        ),
        (
            "older release",
            Handshake {
                release: "0.0.1".to_owned(),
                ..daemon.clone()
            },
            false,
        ),
        (
            "unreadable release",
            Handshake {
                release: "elsewhere".to_owned(),
                ..daemon.clone()
            },
            true,
        ),
        (
            "version",
            Handshake {
                version: daemon.version + 1,
                ..daemon.clone()
            },
            true,
        ),
        (
            "store",
            Handshake {
                db_url: "surrealkv:///elsewhere".to_owned(),
                ..daemon.clone()
            },
            false,
        ),
        (
            "embedder",
            Handshake {
                embedder: EmbedderKind::Noop,
                ..daemon.clone()
            },
            false,
        ),
    ] {
        let refusal = daemon
            .accept(&broken)
            .expect_err("{label} disagreeing must be refused");
        assert!(
            !refusal.message.is_empty(),
            "{label} must say what to do about it"
        );
        assert_eq!(refusal.retire, retires, "{label}: wrong side gives way");
    }
}

#[test]
fn one_text_is_one_release_whether_or_not_it_is_a_version() {
    let daemon = Handshake {
        release: "elsewhere".to_owned(),
        ..Handshake::new(&config("/tmp/agmem-test"))
    };
    assert!(daemon.accept(&daemon.clone()).is_ok());
    assert!(decide(false, &daemon, &daemon.clone()).is_ok());

    let moved = Handshake {
        release: "somewhere".to_owned(),
        ..daemon.clone()
    };
    assert!(daemon.accept(&moved).expect_err("another text").retire);

    let newer_wire = Handshake {
        version: daemon.version + 1,
        ..daemon.clone()
    };
    assert!(daemon.accept(&newer_wire).expect_err("protocol").retire);
    assert!(!newer_wire.accept(&daemon).expect_err("protocol").retire);

    let other_store = Handshake {
        db_url: "surrealkv:///elsewhere".to_owned(),
        ..daemon.clone()
    };
    assert!(!daemon.accept(&other_store).expect_err("store").retire);
}

#[test]
fn an_ack_survives_the_wire_and_a_refusal_carries_its_reason() {
    for ack in [
        Ack::accepted(),
        Ack::refused(&Refusal {
            message: "another release".to_owned(),
            retire: true,
        }),
    ] {
        let line = ack_line(&ack);
        assert!(!line.contains('\n'), "the ack is one line: {line}");
        let read = parse(&line).expect("JSON");
        assert_eq!(read.get("ok").and_then(Json::as_bool), Some(ack.ok));
        assert_eq!(read.get_str("error"), ack.error.as_deref());
        assert_eq!(
            read.get("retiring").and_then(Json::as_bool),
            Some(ack.retiring)
        );
    }
    let refused = Ack::refused(&Refusal {
        message: "why".to_owned(),
        retire: false,
    });
    assert_eq!(refused.error.as_deref(), Some("why"));
    assert!(!refused.ok && !refused.retiring);
}

#[test]
fn a_socket_path_that_would_not_fit_is_refused_rather_than_truncated() {
    let long = format!("/tmp/{}", "x".repeat(MAX_SOCKET_PATH));
    let error = socket_path(&long).expect_err("too long");
    assert!(
        error.contains("--no-daemon"),
        "the refusal names the way out: {error}"
    );
    socket_path("/tmp/agmem").expect("an ordinary path fits");
}

#[test]
fn a_socket_path_is_measured_in_bytes() {
    let wide = format!("/{}", "é".repeat(50));
    assert!(wide.chars().count() < MAX_SOCKET_PATH);
    assert!(socket_path(&wide).is_err());
    assert_eq!(
        socket_path("/tmp/agmem").unwrap(),
        "/tmp/agmem/agmem.sock"
    );
    assert_eq!(spawn_lock_path("/tmp/agmem"), "/tmp/agmem/agmem.spawn.lock");
}

#[test]
fn remote_memory_and_lone_stores_are_not_shared() {
    assert!(wanted(&config("/tmp/a")));
    let mut lone = config("/tmp/a");
    lone.no_daemon = true;
    assert!(!wanted(&lone));
    let mut memory = config("/tmp/a");
    memory.db_url = "mem://".to_owned();
    assert!(!wanted(&memory));
    let mut remote = config("/tmp/a");
    remote.db_url = "wss://db".to_owned();
    assert!(!wanted(&remote));
}

#[test]
fn releases_compare_as_versions() {
    assert_eq!(newer("0.10.0", "0.9.9"), Some(Order::Greater));
    assert_eq!(newer("0.3.0", "0.3.0"), Some(Order::Equal));
    assert_eq!(newer("0.3.0-rc.1", "0.3.0"), Some(Order::Less));
    assert_eq!(newer("elsewhere", "0.3.0"), None);
}

#[test]
fn a_session_brings_its_own_space_and_words() {
    let daemon = config("/tmp/a");
    let mut asked = Handshake::new(&daemon);
    asked.space = SpaceName::new("other").unwrap();
    asked.pool = 8;
    asked.tool_desc = overrides("recall", "Ask.");
    let session = session_config(&daemon, &asked);
    assert_eq!(session.space.as_str(), "other");
    assert_eq!(session.pool, 8);
    assert_eq!(session.tool_desc.get("recall"), Some("Ask."));
    assert_eq!(session.db_url, daemon.db_url);
}

#[test]
fn a_close_without_an_ack_names_the_pid_on_the_lock() {
    let cfg = config("/tmp/a");
    let pid = owner("4242\n").expect("a lock file");
    let message = closed_without_answer(&cfg, Some(&pid));
    assert!(
        message.contains("kill 4242"),
        "the way out is a command, not a hunt: {message}"
    );
    assert_eq!(owner(" \n"), None);
    let held = already_owned("4242\n", "/tmp/a");
    assert!(held.contains("(pid 4242)") && held.contains("/tmp/a"), "{held}");
}

#[test]
fn a_daemon_that_accepts_and_says_nothing_is_reported_not_waited_on() {
    let cfg = config("/tmp/a");
    let message = wedged(&cfg, None, "100ms");
    assert!(
        message.contains("did not answer the handshake"),
        "the message says what happened: {message}"
    );
    assert!(
        message.contains("/tmp/a/daemon.log"),
        "and where to look: {message}"
    );
}

#[test]
fn a_daemon_that_exits_at_startup_is_reported_at_once_with_its_log() {
    let cfg = config("/tmp/a");
    assert_eq!(ready(0, false, true), Ready::Died);
    let message = after_death(starts_allowed(Takeover::No), "exit status: 2", &cfg)
        .expect_err("a child that exited never accepts");
    assert!(message.contains("exited"), "{message}");
    assert!(message.contains(&log_path(&cfg)), "{message}");
    assert_eq!(
        after_death(starts_allowed(Takeover::FromRetired), "exit status: 2", &cfg),
        Ok(1)
    );
    for said in [
        never_ready(&cfg),
        store_still_owned(&cfg, Some("7")),
        never_started("/tmp/a/agmem.spawn.lock"),
    ] {
        assert!(said.contains("--no-daemon"), "{said}");
    }
}

#[test]
fn waiting_has_an_end() {
    assert_eq!(ready(10, true, true), Ready::Serving);
    assert_eq!(ready(10, false, false), Ready::Waiting);
    assert_eq!(ready(120_000, true, false), Ready::TimedOut);
    assert_eq!(poll(true, 99, 10), Next::Done);
    assert_eq!(poll(false, 10, 10), Next::GiveUp);
    assert!(matches!(poll(false, 9, 10), Next::Again(_)));
    assert_eq!(after_store_probe(StoreLock::Free, 0), Next::Done);
    assert_eq!(after_store_probe(StoreLock::Unknown, 0), Next::GiveUp);
    assert_eq!(after_store_probe(StoreLock::Held, 0), Next::Again(5));
    assert_eq!(after_store_probe(StoreLock::Held, 10_000), Next::GiveUp);
}

#[test]
fn two_retirements_in_a_row_are_reported() {
    let retired = || {
        judge(Ack {
            ok: false,
            error: Some("newer".to_owned()),
            retiring: true,
        })
    };
    assert!(matches!(retired(), Attached::DaemonRetired(_)));
    assert!(matches!(
        after_attempt(retired(), Takeover::No, "/s"),
        Attempt::Again
    ));
    let Attempt::GiveUp(message) = after_attempt(retired(), Takeover::FromRetired, "/s") else {
        panic!("a second retirement is the user's to resolve");
    };
    assert!(message.contains("twice"), "{message}");
    assert!(matches!(
        after_attempt(judge(Ack::accepted()), Takeover::No, "/s"),
        Attempt::Attached
    ));
    let Attempt::GiveUp(why) = after_attempt(Attached::Refused("no".to_owned()), Takeover::No, "/s")
    else {
        panic!("a refusal is final");
    };
    assert_eq!(why, "no");
}

#[test]
fn the_ack_ends_at_its_line_feed() {
    let mut line = AckLine::new();
    let mut taken = 0;
    for byte in b"{\"ok\":true}\n{\"jsonrpc\"" {
        taken += 1;
        if line.push(*byte) == AckStep::Complete {
            break;
        }
    }
    assert_eq!(line.bytes().as_slice(), b"{\"ok\":true}");
    assert_eq!(taken, 12);

    let mut endless = AckLine::new();
    for _ in 0..MAX_ACK {
        assert_eq!(endless.push(b'x'), AckStep::More);
    }
    assert_eq!(endless.push(b'x'), AckStep::TooLong);
}

#[test]
fn a_daemon_is_started_with_its_configuration() {
    let cfg = config("/tmp/a");
    let args = spawn_args(&cfg, Takeover::FromRetired);
    assert_eq!(args[0], "--daemon-serve");
    assert_eq!(args.last().map(String::as_str), Some("--took-over"));
    let at = args.iter().position(|arg| arg == "--db").expect("--db");
    assert_eq!(args[at + 1], cfg.db_url);
    assert!(!spawn_args(&cfg, Takeover::No).contains(&"--took-over".to_owned()));
}

#[test]
fn a_retiring_daemon_answers_everyone_and_drains() {
    let daemon = Handshake::new(&config("/tmp/a"));
    let refusal = decide(true, &daemon, &daemon).expect_err("retiring");
    assert!(refusal.retire);
    let (ack, verdict) = answer(Err(refusal));
    assert!(!ack.ok && ack.retiring);
    assert!(matches!(verdict, Verdict::Retire));
    let (ack, verdict) = answer(decide(false, &daemon, &daemon));
    assert!(ack.ok);
    assert!(matches!(verdict, Verdict::Serve));
    let (_, verdict) = answer(Err(Refusal {
        message: "another store".to_owned(),
        retire: false,
    }));
    assert!(matches!(verdict, Verdict::Refuse(why) if why == "another store"));
}

#[test]
fn the_accept_loop_leaves_its_socket_once() {
    let mut state = AcceptLoop::new();
    assert!(state.waits(600).idle && !state.waits(0).idle);
    assert!(state.step(Event::Accepted).serve);
    assert!(state.step(Event::Accepted).serve);
    let retire = state.step(Event::Ended(SessionEnd::Retiring));
    assert!(retire.retire && retire.unlink && !retire.stop);
    assert!(!state.waits(600).accepted && state.waits(600).drained);
    let last = state.step(Event::Ended(SessionEnd::Detached));
    assert!(last.stop && !last.unlink);

    let mut idle = AcceptLoop::new();
    let leave = idle.step(Event::Idle);
    assert!(leave.stop && leave.unlink);
}

#[test]
fn only_an_embedded_store_has_a_lock_of_its_own() {
    assert_eq!(
        store_lock_path("surrealkv:///tmp/a/agmem.db"),
        Some("/tmp/a/agmem.db/LOCK".to_owned())
    );
    assert_eq!(store_lock_path("mem://"), None);
}
