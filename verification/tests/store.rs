use agmem::domain::model::SpaceName;
use agmem::embed::accelerator::Accelerator;
use agmem::embed::model::Model;
use agmem::server::args::ReindexArgs;
use agmem::server::config::{ApiArgs, Cli, Config, EmbedderKind, Surroundings, ToolGroup};
use agmem::server::doctor::{
    after_daemon_probe, daemon_absent, daemon_lines, data_dir, document_counts, embedder_line,
    failures, finish, selfcheck, store_lines, tool_descriptions, vector_coverage, writer_lock, Line, Loaded, Mark,
    OpenStore, WriterLock, ALL_PASSED,
};
use agmem::server::reindex::{
    busy, moves, schema_line, space_line, summary, target, Batch, Drain, Next, Pass, Report, DRAIN_GIVE_UP,
};
use agmem::server::startup::{pruned, settle, Recorded, Settling, Space, VectorState};
use agmem::server::tools::ToolDescriptions;

fn config() -> Config {
    Cli {
        data: Some("/tmp/a".to_owned()),
        db: None,
        db_user: None,
        db_pass: None,
        space: None,
        embedder: EmbedderKind::Llama,
        model: Model::Gemma300M,
        accelerator: Accelerator::Auto,
        api: ApiArgs {
            url: String::new(),
            model: String::new(),
        },
        pool: 64,
        max_k: 50,
        tools: ToolGroup::Core,
        log: "info".to_owned(),
        log_file: None,
        doctor: true,
        no_daemon: false,
        daemon_serve: false,
        took_over: false,
        idle_timeout: 600,
        command: None,
    }
    .resolve(Surroundings {
        platform_dir: None,
        space: SpaceName::new("project").unwrap(),
        vars: vec![],
    })
    .expect("resolve")
}

fn loaded() -> Result<Loaded, String> {
    Ok(Loaded {
        model_id: "embeddinggemma-300m-q8".to_owned(),
        dim: 768,
        accelerator: "cpu".to_owned(),
    })
}

fn open() -> OpenStore {
    OpenStore {
        schema: Ok(9),
        roundtrip: Ok(()),
        documents: Ok("project: 2".to_owned()),
        same_space: Ok(()),
        pending: Ok(0),
    }
}

fn texts(lines: &[Line]) -> Vec<String> {
    lines.iter().map(Line::text).collect()
}

#[test]
fn a_healthy_report_reads_as_documented() {
    let mut lines = vec![
        data_dir("~/Library/Application Support/dev.agmem.agmem", Ok(())),
        tool_descriptions(&ToolDescriptions::new()),
        daemon_absent(),
        writer_lock(WriterLock::Held).0,
    ];
    lines.extend(store_lines("surrealkv://…/agmem.db", Ok(open()), &loaded()));
    assert_eq!(
        texts(&lines),
        [
            "  ok    data dir writable    ~/Library/Application Support/dev.agmem.agmem",
            "  ok    tool descriptions    agmem's own wording",
            "  ok    shared daemon        not running; the next session starts one",
            "  ok    single-writer lock   held by this process",
            "  ok    database open        surrealkv://…/agmem.db",
            "  ok    schema               v9",
            "  ok    write/read roundtrip scratch record created and removed",
            "  ok    documents            project: 2",
            "  ok    embedder             embeddinggemma-300m-q8 (768d, cpu)",
            "  ok    embedder vs store    same model and width",
            "  ok    vector coverage      every row carries a vector",
        ]
    );
    assert_eq!(failures(&lines), 0);
    assert_eq!(finish(&lines), Ok(ALL_PASSED));
}

#[test]
fn a_running_daemon_skips_two_lines_and_is_healthy() {
    let lines = daemon_lines("/tmp/a/agmem.sock");
    let skipped = lines.iter().filter(|line| line.mark == Mark::Skipped).count();
    assert_eq!(skipped, 2);
    assert_eq!(failures(&lines), 0);
    assert_eq!(
        lines[0].text(),
        "  ok    shared daemon        serving /tmp/a/agmem.sock"
    );
    assert_eq!(
        lines[2].text(),
        "  skip  database + schema     the daemon checked these when it started; \
         its log has the result"
    );
}

#[test]
fn a_store_that_a_daemon_holds_is_not_opened() {
    let (lines, go_on) = after_daemon_probe(true, Some("/tmp/a/agmem.sock"));
    assert_eq!(lines, daemon_lines("/tmp/a/agmem.sock"));
    assert!(!go_on);

    let (lines, go_on) = after_daemon_probe(true, None);
    assert_eq!(lines, [daemon_absent()]);
    assert!(go_on);

    for live in [None, Some("/tmp/a/agmem.sock")] {
        let (lines, go_on) = after_daemon_probe(false, live);
        assert!(lines.is_empty() && go_on);
    }
}

#[test]
fn every_failure_is_counted() {
    let broken = OpenStore {
        schema: Err("no schema".to_owned()),
        roundtrip: Err("read only".to_owned()),
        documents: Err("gone".to_owned()),
        same_space: Err("another model".to_owned()),
        pending: Ok(3),
    };
    let lines = store_lines("mem://", Ok(broken), &loaded());
    assert_eq!(failures(&lines), 5);
    assert_eq!(
        finish(&lines),
        Err("doctor: 5 check(s) failed".to_owned())
    );
    assert_eq!(
        lines.last().expect("coverage").detail,
        "3 row(s) carry no vector, so a vector recall cannot reach them; run `agmem reindex`"
    );
    let closed = store_lines("mem://", Err("refused".to_owned()), &Err("no model".to_owned()));
    assert_eq!(closed.len(), 2);
    assert_eq!(closed[0].detail, "mem://: refused");
    assert_eq!(failures(&closed), 2);
    let (line, goes_on) = writer_lock(WriterLock::Refused("held".to_owned()));
    assert!(line.mark == Mark::Failed && !goes_on);
    assert!(writer_lock(WriterLock::Remote).1);
    assert_eq!(data_dir("/d", Err("denied".to_owned())).mark, Mark::Failed);
}

#[test]
fn reworded_tools_are_on_the_report() {
    let pair = |tool: &str| (tool.to_owned(), "x".to_owned());
    let overrides = ToolDescriptions::from_pairs(vec![pair("remember"), pair("context")]);
    assert_eq!(
        tool_descriptions(&overrides).detail,
        "overridden: context, remember"
    );
    let none = Ok(Loaded {
        model_id: "none".to_owned(),
        dim: 0,
        accelerator: "cpu".to_owned(),
    });
    assert_eq!(embedder_line(&none).detail, "none (test-only, no vectors)");
}

#[test]
fn a_probe_row_left_behind_does_not_fail_the_next_roundtrip() {
    let checks = selfcheck(Ok(()), 0, Ok(0), Ok(document_counts(&[])));
    assert!(
        checks.iter().all(|check| check.outcome.is_ok()),
        "{checks:?}"
    );
    assert_eq!(
        checks.len(),
        2,
        "with no vector side there is no coverage to check: {checks:?}"
    );
    assert_eq!(
        checks[1].outcome.as_deref(),
        Ok("no space registered yet"),
        "a store nothing registered in has nothing to count: {checks:?}"
    );
}

#[test]
fn a_vector_side_is_checked_for_coverage() {
    let checks = selfcheck(Ok(()), 768, Ok(2), Ok(String::new()));
    assert_eq!(checks.len(), 3);
    assert!(checks[1].outcome.is_err());
    assert_eq!(
        vector_coverage(Ok(0)),
        Ok("every row carries a vector".to_owned())
    );
    assert_eq!(vector_coverage(Err("down".to_owned())), Err("down".to_owned()));
    assert_eq!(
        document_counts(&[("a".to_owned(), 1), ("b".to_owned(), 20)]),
        "a: 1, b: 20"
    );
}

fn other() -> Recorded {
    Recorded::Other(Space {
        model: "bge-small-en-v1.5-q".to_owned(),
        dim: 384,
    })
}

#[test]
fn the_configured_model_wins() {
    assert_eq!(settle(768, &Recorded::Nothing), Settling::Record);
    assert_eq!(settle(768, &Recorded::Same), Settling::Record);
    assert_eq!(settle(768, &other()), Settling::Move);
    assert_eq!(settle(0, &other()), Settling::Leave);

    let mut moved = VectorState::opened(768, other(), 12);
    assert_eq!(moved.pending(), 12);
    assert_eq!(moved.moved_from().map(|space| space.dim), Some(384));
    moved.set_pending(3);
    assert_eq!(moved.pending(), 3);
    let same = VectorState::opened(768, Recorded::Same, 2);
    assert_eq!(same, VectorState::with_pending(2));
    assert_eq!(VectorState::opened(0, other(), 5), VectorState::default());
    assert_eq!(pruned(Ok(4)), 4);
    assert_eq!(pruned(Err("engine".to_owned())), 0);
}

#[test]
fn a_pass_ends_or_says_why_not() {
    let mut pass = Pass::new(300);
    assert!(pass.wants_batch());
    assert_eq!(
        pass.after_batch(172),
        Ok("  ..    re-embedding         128/300 rows".to_owned())
    );
    assert_eq!(
        pass.after_batch(172),
        Err("a batch left 172 of 172 row(s) still pending; refusing to loop".to_owned())
    );
    assert!(pass.after_batch(0).is_ok());
    assert!(!pass.wants_batch());
    assert_eq!(pass.embedded(), 300);
}

#[test]
fn a_run_moves_every_store_but_its_own() {
    assert_eq!(moves(768, &Recorded::Same), Ok(false));
    assert_eq!(moves(768, &Recorded::Nothing), Ok(true));
    assert_eq!(moves(768, &other()), Ok(true));
    assert!(moves(0, &other())
        .expect_err("no space to move into")
        .contains("--embedder none"));
    let aimed = target(
        &config(),
        &ReindexArgs {
            model: Some(Model::BgeSmall),
        },
    );
    assert_eq!(aimed.model, Model::BgeSmall);
    assert_eq!(
        target(&config(), &ReindexArgs { model: None }).model,
        Model::Gemma300M
    );
    let report = Report {
        model: "m".to_owned(),
        dim: 384,
        embedded: 7,
        moved: true,
    };
    assert_eq!(schema_line(9), "  ok    schema               v9");
    assert_eq!(
        agmem::server::reindex::embedder_line("m", 384, "cpu", Some("abc1234")),
        "  ok    embedder             m (384d, cpu, rev abc1234)"
    );
    assert_eq!(
        agmem::server::reindex::embedder_line("none", 0, "cpu", None),
        "  ok    embedder             none (0d, cpu)"
    );
    assert_eq!(
        space_line(&report),
        "  ok    vector space         moved to m (384d)"
    );
    let finished = Report {
        moved: false,
        ..report
    };
    assert_eq!(
        space_line(&finished),
        "  ok    vector space         already m (384d)"
    );
    assert_eq!(summary(&finished), "reindex: 7 row(s) re-embedded");
    let message = busy("/s", None);
    assert!(message.contains("/s (pid unknown)"), "{message}");
}

#[test]
fn the_drain_gives_up_after_failures_in_a_row() {
    let mut drain = Drain::new(40);
    assert_eq!(drain.after_batch(Batch::Left(24)), Next::Continue(24));
    for _ in 1..DRAIN_GIVE_UP {
        assert_eq!(drain.after_batch(Batch::Failed), Next::Retry);
    }
    assert_eq!(
        drain.after_batch(Batch::Left(8)),
        Next::Continue(8),
        "a batch that helps clears the count"
    );
    for _ in 1..DRAIN_GIVE_UP {
        assert_eq!(drain.after_batch(Batch::Left(8)), Next::Retry);
    }
    assert_eq!(drain.after_batch(Batch::Failed), Next::GiveUp);
    let mut last = Drain::new(3);
    assert_eq!(last.after_batch(Batch::Left(0)), Next::Done);
}
