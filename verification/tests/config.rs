use agmem::domain::model::SpaceName;
use agmem::embed::accelerator::Accelerator;
use agmem::embed::model::Model;
use agmem::server::args::{
    CliCommand, ContextArgs, DocArgs, DocListArgs, DocVerb, HookArgs, HookEvent, ReindexArgs,
};
use agmem::server::config::{ApiArgs, Cli, Config, EmbedderKind, Surroundings, ToolGroup};
use agmem::server::embedder::{choose_backend, model_dir, Backend};
use agmem::server::run::{choose_mode, Mode};
use agmem::server::space::{common_dir, derived_space, git_dir_named, space_from_dir_name};
use agmem::server::tools::{is_tool, names, ToolDescriptions};

fn cli() -> Cli {
    Cli {
        data: None,
        db: None,
        db_user: None,
        db_pass: None,
        space: None,
        embedder: EmbedderKind::Llama,
        model: Model::default(),
        accelerator: Accelerator::Auto,
        api: ApiArgs {
            url: "https://api.openai.com/v1".to_owned(),
            model: "text-embedding-3-small".to_owned(),
        },
        pool: 64,
        max_k: 50,
        tools: ToolGroup::Core,
        log: "info".to_owned(),
        log_file: None,
        doctor: false,
        no_daemon: false,
        daemon_serve: false,
        took_over: false,
        idle_timeout: 600,
        command: None,
    }
}

fn around() -> Surroundings {
    Surroundings {
        platform_dir: Some("/home/u/.local/share/agmem".to_owned()),
        space: SpaceName::new("derived").unwrap(),
        vars: vec![],
    }
}

fn at_tmp() -> Cli {
    Cli {
        data: Some("/tmp/agmem-test".to_owned()),
        ..cli()
    }
}

fn resolve(cli: Cli) -> Config {
    cli.resolve(around()).expect("resolve")
}

#[test]
fn db_url_derives_from_data_dir() {
    let cfg = resolve(at_tmp());
    assert_eq!(cfg.db_url, "surrealkv:///tmp/agmem-test/agmem.db");
    assert!(!cfg.db_is_remote());
}

#[test]
fn the_platform_directory_is_the_default() {
    assert_eq!(resolve(cli()).data_dir, "/home/u/.local/share/agmem");
    let nowhere = Surroundings {
        platform_dir: None,
        ..around()
    };
    assert!(cli().resolve(nowhere).is_err());
}

#[test]
fn explicit_db_url_wins_and_remote_is_detected() {
    let cfg = resolve(Cli {
        db: Some("ws://localhost:8000".to_owned()),
        ..cli()
    });
    assert!(cfg.db_is_remote());
}

#[test]
fn half_a_credential_pair_is_refused_for_remote_engines() {
    let err = Cli {
        db: Some("ws://localhost:8000".to_owned()),
        db_user: Some("root".to_owned()),
        ..cli()
    }
    .resolve(around())
    .expect_err("one credential without the other");
    assert!(err.contains("pair"), "{err}");

    let cfg = resolve(Cli {
        db: Some("ws://localhost:8000".to_owned()),
        db_user: Some("root".to_owned()),
        db_pass: Some("s3cret".to_owned()),
        ..cli()
    });
    let credentials = cfg.db_credentials().expect("both");
    assert_eq!((credentials.user, credentials.pass), ("root", "s3cret"));

    // Embedded engines have no signin; stray credentials never apply.
    let cfg = resolve(Cli {
        db_user: Some("root".to_owned()),
        ..at_tmp()
    });
    assert!(cfg.db_credentials().is_none());
}

#[test]
fn invalid_space_is_rejected_at_parse_time() {
    let err = SpaceName::new("Not A Slug");
    assert!(err.is_err());
}

#[test]
fn an_explicit_space_wins_over_derivation() {
    let cfg = resolve(Cli {
        space: Some(SpaceName::new("pinned").unwrap()),
        ..at_tmp()
    });
    assert_eq!(cfg.space.as_str(), "pinned");
    assert_eq!(resolve(at_tmp()).space.as_str(), "derived");
}

#[test]
fn a_run_with_no_subcommand_is_the_server() {
    let cfg = resolve(at_tmp());
    assert_eq!(cfg.command, None);
}

#[test]
fn the_context_subcommand_carries_the_tool_parameters() {
    let asked = || ContextArgs {
        query: Some("release work".to_owned()),
        space: Some("all".to_owned()),
        budget_chars: Some(500),
    };
    let cfg = resolve(Cli {
        command: Some(CliCommand::Context(asked())),
        ..at_tmp()
    });
    assert_eq!(cfg.command, Some(CliCommand::Context(asked())));
}

#[test]
fn the_subcommands_space_selects_scope_and_the_flags_name_the_project() {
    let cfg = resolve(Cli {
        space: Some(SpaceName::new("pinned").unwrap()),
        command: Some(CliCommand::Context(ContextArgs::default())),
        ..at_tmp()
    });
    assert_eq!(cfg.space.as_str(), "pinned");
    assert_eq!(
        cfg.command,
        Some(CliCommand::Context(ContextArgs::default()))
    );
}

#[test]
fn a_bad_override_refuses_the_whole_configuration() {
    let around = Surroundings {
        vars: vec![("AGMEM_TOOL_DESC_RECAL".to_owned(), "x".to_owned())],
        ..around()
    };
    let err = at_tmp().resolve(around).expect_err("not a tool");
    assert!(err.contains("AGMEM_TOOL_DESC_RECAL"), "{err}");
}

#[test]
fn space_derives_from_the_repo_root_not_the_subdir() {
    assert_eq!(
        derived_space("/w/Alpha/src/deep", Some("/w/Alpha")).as_str(),
        "alpha"
    );
}

#[test]
fn a_linked_worktree_lands_in_its_repos_space() {
    let private = git_dir_named("/w/alpha-fix", "gitdir: /w/Alpha/.git/worktrees/fix\n")
        .expect("a worktree");
    assert_eq!(private, "/w/Alpha/.git/worktrees/fix");
    assert_eq!(
        common_dir(&private, Some("../..\n")),
        "/w/Alpha/.git/worktrees/fix/../.."
    );
    assert_eq!(
        derived_space("/w/alpha-fix", Some("/w/Alpha")).as_str(),
        "alpha"
    );
}

#[test]
fn a_bare_layout_names_the_project_root() {
    let private = git_dir_named("/w/Proj/main", "gitdir: ../.bare/worktrees/main").expect("named");
    assert_eq!(private, "/w/Proj/main/../.bare/worktrees/main");
    assert_eq!(common_dir(&private, None), private);
    assert_eq!(git_dir_named("/w", "ref: refs/heads/main"), None);
    assert_eq!(
        derived_space("/w/Proj/main", Some("/w/Proj")).as_str(),
        "proj"
    );
}

#[test]
fn no_repo_falls_back_to_the_directory_name_slugged() {
    assert_eq!(derived_space("/w/My Project!", None).as_str(), "my-project");
}

#[test]
fn the_reserved_user_space_is_never_derived() {
    assert_eq!(derived_space("/w/user", Some("/w/user")).as_str(), "default");
    assert!(space_from_dir_name("/w/User").is_none());
}

#[test]
fn a_name_with_nothing_usable_falls_back_to_default() {
    assert_eq!(derived_space("/w/…—…", None).as_str(), "default");
}

fn env(pairs: &[(&str, &str)]) -> Result<ToolDescriptions, String> {
    ToolDescriptions::collect(
        pairs
            .iter()
            .map(|(key, value)| ((*key).to_owned(), (*value).to_owned()))
            .collect(),
    )
}

#[test]
fn an_override_is_keyed_by_the_lowercased_suffix() {
    let overrides = env(&[
        ("AGMEM_TOOL_DESC_RECALL", "Search what you were told."),
        ("AGMEM_TOOL_DESC_remember", "Write it down."),
        ("AGMEM_SPACE", "unrelated"),
        ("PATH", "/usr/bin"),
    ])
    .expect("every name is a known tool");

    assert_eq!(overrides.get("recall"), Some("Search what you were told."));
    assert_eq!(overrides.get("remember"), Some("Write it down."));
    assert_eq!(overrides.get("forget"), None, "unnamed tools keep theirs");
    assert_eq!(overrides.tools(), ["recall", "remember"]);
    assert!(env(&[("AGMEM_SPACE", "x")])
        .expect("no overrides")
        .is_empty());
}

#[test]
fn a_typo_is_refused_rather_than_ignored() {
    let unknown = env(&[("AGMEM_TOOL_DESC_RECAL", "…")]).expect_err("not a tool");
    assert!(
        unknown.contains("recall"),
        "the refusal lists the real names: {unknown}"
    );

    let blank = env(&[("AGMEM_TOOL_DESC_INSPECT", "   ")]).expect_err("blank");
    assert!(
        blank.contains("unset"),
        "the refusal says how to get the built-in back: {blank}"
    );
}

#[test]
fn a_later_override_of_one_tool_wins() {
    let pair = |text: &str| ("recall".to_owned(), text.to_owned());
    let made = ToolDescriptions::from_pairs(vec![pair("first"), pair("second")]);
    assert_eq!(made.get("recall"), Some("second"));
    assert_eq!(made.tools(), ["recall"]);
    assert_eq!(made.clone(), made);
    assert!(names().iter().all(|name| is_tool(name)) && !is_tool("recal"));
}

#[test]
fn the_backend_follows_the_configuration() {
    let cfg = resolve(at_tmp());
    assert_eq!(model_dir(&cfg), "/tmp/agmem-test/models");
    assert_eq!(
        choose_backend(&cfg, None),
        Backend::Llama {
            model: Model::Gemma300M,
            model_dir: "/tmp/agmem-test/models".to_owned(),
            accelerator: Accelerator::Auto,
        }
    );
    let api = resolve(Cli {
        embedder: EmbedderKind::Api,
        ..at_tmp()
    });
    let key = |backend| match backend {
        Backend::Api { key, .. } => key,
        _ => panic!("not the endpoint"),
    };
    assert_eq!(key(choose_backend(&api, Some(String::new()))), None);
    assert_eq!(
        key(choose_backend(&api, Some("sk".to_owned()))),
        Some("sk".to_owned())
    );
    let none = resolve(Cli {
        embedder: EmbedderKind::Noop,
        ..at_tmp()
    });
    assert_eq!(choose_backend(&none, None), Backend::Noop);
    assert_eq!(EmbedderKind::Noop.as_str(), "none");
}

#[test]
fn a_run_is_one_of_its_ways() {
    assert_eq!(choose_mode(&resolve(at_tmp()), true), Mode::Attach);
    assert_eq!(choose_mode(&resolve(at_tmp()), false), Mode::InProcess);
    let alone = resolve(Cli {
        no_daemon: true,
        ..at_tmp()
    });
    assert_eq!(choose_mode(&alone, true), Mode::InProcess);
    let daemon = || Cli {
        daemon_serve: true,
        doctor: true,
        ..at_tmp()
    };
    assert_eq!(choose_mode(&resolve(daemon()), true), Mode::Daemon);
    assert_eq!(choose_mode(&resolve(daemon()), false), Mode::Doctor);
    let command = |command| {
        choose_mode(
            &resolve(Cli {
                command: Some(command),
                ..at_tmp()
            }),
            true,
        )
    };
    assert_eq!(
        command(CliCommand::Reindex(ReindexArgs { model: None })),
        Mode::Reindex(ReindexArgs { model: None })
    );
    assert_eq!(
        command(CliCommand::Hook(HookArgs {
            event: HookEvent::Stop
        })),
        Mode::Hook(HookEvent::Stop)
    );
    let list = || {
        DocVerb::List(DocListArgs {
            kinds: vec!["plan".to_owned()],
            tags: vec![],
            space: None,
            json: false,
        })
    };
    assert_eq!(
        command(CliCommand::Doc(DocArgs { verb: list() })),
        Mode::Doc(list())
    );
}
