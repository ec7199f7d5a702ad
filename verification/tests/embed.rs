use agmem::domain::json::{parse, Json};
use agmem::embed::accelerator::{Accelerator, Active, Build};
use agmem::embed::api::{
    after_attempt, endpoint, error_message, host_of, judge_status, learn_width, model_id,
    order_answer, Outcome, Retry, ATTEMPTS,
};
use agmem::embed::batch::{groups, slices, truncate, truncate_to, Run, BATCH_TOKENS, MAX_SEQUENCES};
use agmem::embed::candidates::{check_widths, mark_all, tokenizer_appends, Candidate, Engine};
use agmem::embed::error::EmbedError;
use agmem::embed::fastembed::{cache_dir_to_set, FastembedBackend, DIM};
use agmem::embed::llama::{check_file, query_vector, thread_name};
use agmem::embed::model::{model_dir, Model, Source};
use agmem::embed::noop::NoopEmbedder;
use agmem::embed::rerank::FastembedReranker;
use agmem::embed::session::{
    lay_out, pad_id, plan_session, pooled_positions, read_config, tokenizer_inputs, Encoding,
};
use agmem::embed::static_m2v::{check_probe, source};

fn strings(items: &[&str]) -> Vec<String> {
    items.iter().map(|item| (*item).to_owned()).collect()
}

#[test]
fn accelerator_spellings_round_trip() {
    for accelerator in [
        Accelerator::Auto,
        Accelerator::Cpu,
        Accelerator::CoreMl,
        Accelerator::Metal,
    ] {
        assert_eq!(Accelerator::parse(accelerator.as_str()), Some(accelerator));
    }
    assert_eq!(Accelerator::parse("gpu"), None);
}

#[test]
fn cpu_always_resolves_to_cpu() {
    assert_eq!(Accelerator::Cpu.resolve().unwrap(), Active::Cpu);
}

#[test]
fn auto_never_fails() {
    let _ = Accelerator::Auto.resolve().expect("auto resolves");
}

#[test]
fn coreml_by_name_is_refused_without_the_feature() {
    assert_eq!(Accelerator::Auto.resolve().unwrap(), Active::Cpu);
    let err = Accelerator::CoreMl.resolve().unwrap_err();
    assert!(err.text().contains("--features coreml"), "{}", err.text());
}

#[test]
fn a_build_with_metal_runs_on_it() {
    let build = Build {
        coreml: false,
        coreml_here: false,
        metal: true,
    };
    assert_eq!(Accelerator::Metal.resolve_for(build).unwrap(), Active::Metal);
    assert_eq!(Active::Metal.as_str(), "metal");
    assert!(Active::Metal.gpu_layers() > 0);
    assert_eq!(Active::Cpu.gpu_layers(), 0);
    assert!(Accelerator::Metal.resolve_for(Build::portable()).is_err());
}

#[test]
fn every_id_round_trips() {
    for candidate in Candidate::ALL {
        assert_eq!(Candidate::parse(candidate.id()), Some(candidate));
    }
    assert_eq!(Candidate::parse("nope"), None);
}

#[test]
fn the_built_in_dimensions_match_fastembed() {
    for (candidate, builtin) in [
        (
            Candidate::BgeSmallQ,
            fastembed::EmbeddingModel::BGESmallENV15Q,
        ),
        (
            Candidate::Gemma300MQ,
            fastembed::EmbeddingModel::EmbeddingGemma300MQ,
        ),
    ] {
        let info = fastembed::TextEmbedding::get_model_info(&builtin).expect("model info");
        assert_eq!(info.dim, candidate.dim(), "{}", candidate.id());
    }
}

#[test]
fn the_declared_dimension_matches_the_model() {
    let info =
        fastembed::TextEmbedding::get_model_info(&fastembed::EmbeddingModel::BGESmallENV15Q)
            .expect("model info");
    assert_eq!(info.dim, DIM, "schema HNSW dimension would be wrong");
}

#[test]
fn a_post_processor_that_appends_eos_is_detected() {
    let with = r#"{"post_processor":{"type":"TemplateProcessing","single":[{"Sequence":{"id":"A"}},{"SpecialToken":{"id":"<|endoftext|>"}}]}}"#;
    let without = r#"{"post_processor":null}"#;
    assert!(tokenizer_appends(with, "<|endoftext|>"));
    assert!(!tokenizer_appends(without, "<|endoftext|>"));
    assert!(!tokenizer_appends("{", "<|endoftext|>"));
}

#[test]
fn user_defined_candidates_live_in_their_own_directory() {
    assert_eq!(Candidate::BgeSmallQ.user_defined(), None);
    assert_eq!(Candidate::BgeSmallQ.dir("/cache"), None);
    assert!(Candidate::BgeSmallQ.files().is_empty());
    let qwen = Candidate::Qwen3Embedding06BInt8;
    assert_eq!(qwen.engine(), Engine::Direct);
    assert!(qwen.dir("/cache").expect("a directory").starts_with("/cache/"));
    assert!(qwen.files().contains(&"tokenizer.json"));
}

#[test]
fn a_wrong_width_is_named() {
    assert_eq!(check_widths(&[384, 384], 384), Ok(()));
    assert_eq!(
        check_widths(&[384, 256, 3], 384),
        Err("model returned 256-dimensional vectors, expected 384".to_owned())
    );
    assert_eq!(check_widths(&[], 384), Ok(()));
}

#[test]
fn passages_are_marked_one_by_one() {
    assert_eq!(
        mark_all("passage: ", &strings(&["a", "b"])),
        strings(&["passage: a", "passage: b"])
    );
}

#[test]
fn the_onnx_backend_marks_and_checks() {
    let backend = FastembedBackend;
    assert_eq!(backend.dim(), 384);
    assert_eq!(backend.model_id(), "bge-small-en-v1.5-q");
    assert_eq!(backend.passages(&strings(&["x"])), strings(&["passage: x"]));
    assert_eq!(backend.query("x"), "query: x");
    assert!(backend.check(&[384]).is_ok());
    let error = backend.check(&[5]).unwrap_err();
    assert_eq!(
        error.text(),
        "embedder bge-small-en-v1.5-q: model returned 5-dimensional vectors, expected 384"
    );
    assert_eq!(cache_dir_to_set(true, Some("/c".to_owned())), None);
    assert_eq!(
        cache_dir_to_set(false, Some("/c".to_owned())),
        Some("/c".to_owned())
    );
}

#[test]
fn a_large_batch_reaches_the_backend_in_slices_and_in_order() {
    let runs = slices(300);
    let sizes: Vec<usize> = runs.iter().map(|run| run.end - run.start).collect();
    assert_eq!(sizes, vec![128, 128, 44]);
    let order: Vec<usize> = runs.iter().flat_map(|run| run.start..run.end).collect();
    assert_eq!(order, (0..300).collect::<Vec<_>>());
    assert!(slices(0).is_empty());
}

#[test]
fn groups_fill_a_batch_and_no_more() {
    assert_eq!(
        groups(&[1000, 1000, 100, 10]),
        vec![Run { start: 0, end: 2 }, Run { start: 2, end: 4 }]
    );
    let many = vec![1; MAX_SEQUENCES + 1];
    assert_eq!(groups(&many).len(), 2);
    let oversized = vec![BATCH_TOKENS + 1, 1];
    assert_eq!(groups(&oversized).len(), 2);
}

#[test]
fn a_long_sequence_keeps_its_end_token_last() {
    assert_eq!(truncate(vec![1, 2, 3, 4], 3, 9), vec![1, 2, 9]);
    assert_eq!(truncate(vec![1, 2, 3], 3, 9), vec![1, 2, 3]);
    assert_eq!(truncate_to(256), 256);
    assert_eq!(truncate_to(2048), 512);
}

#[test]
fn model_spellings_round_trip() {
    for model in [Model::Gemma300M, Model::BgeSmall] {
        assert_eq!(Model::parse(model.as_str()), Some(model));
        assert_eq!(Model::from_id(model.spec().id), Some(model));
    }
    assert_eq!(
        Model::parse("bge-small-en-v1.5-q8_0"),
        None,
        "ids are not spellings"
    );
    assert_eq!(
        Model::from_id("bge-small-en-v1.5-q"),
        None,
        "the pre-v0.3 ONNX id is retired: no model here runs it"
    );
}

#[test]
fn the_default_is_gemma_and_every_spec_is_self_consistent() {
    assert_eq!(Model::default(), Model::Gemma300M);
    for model in [Model::Gemma300M, Model::BgeSmall] {
        let spec = model.spec();
        assert!(spec.id.starts_with(model.as_str()), "{}", spec.id);
        assert!(spec.dim > 0);
        assert!(spec.passage_prefix.ends_with(' '));
        assert!(spec.query_prefix.ends_with(' '));
        let Source::Gguf { file, revision, .. } = spec.source;
        assert!(file.ends_with(".gguf"));
        assert_eq!(spec.revision(), revision);
        assert!(
            revision.len() == 40 && revision.bytes().all(|b| b.is_ascii_hexdigit()),
            "a pin is a full commit hash, not a branch name: {revision}"
        );
    }
}

#[test]
fn the_environment_names_the_model_dir() {
    let fallback = Some("/tmp/agmem-models".to_owned());
    assert_eq!(
        model_dir(Some("/poisoned".to_owned()), fallback.clone(), None, false),
        "/poisoned"
    );
    assert_eq!(model_dir(None, fallback, None, false), "/tmp/agmem-models");
    assert!(model_dir(None, None, Some("/home/u".to_owned()), false).ends_with("models"));
    assert!(model_dir(None, None, Some("/Users/u".to_owned()), true).ends_with("models"));
}

#[test]
fn produces_one_empty_vector_per_passage() {
    let embedder = NoopEmbedder;
    let passages = vec!["a".to_owned(), "b".to_owned()];

    assert_eq!(embedder.dim(), 0);
    assert_eq!(embedder.model_id(), "none");
    assert_eq!(
        embedder.embed_passages(&passages),
        vec![Vec::<u32>::new(), Vec::new()]
    );
    assert!(embedder.embed_query("anything").is_empty());
}

/// The message of an error record, where a body is one.
fn provider_words(body: &str) -> Option<String> {
    let value: serde_json::Value = serde_json::from_str(body).ok()?;
    Some(value.get("error")?.get("message")?.as_str()?.to_owned())
}

fn repeated(body: &str) -> String {
    error_message(body, provider_words(body).as_deref())
}

#[test]
fn hosts_and_error_bodies_read_as_expected() {
    assert_eq!(host_of("https://api.openai.com/v1"), "api.openai.com");
    assert_eq!(host_of("http://localhost:11434/v1/"), "localhost:11434");
    assert_eq!(host_of("nohost"), "nohost");
    assert_eq!(repeated(""), "no body");
    assert_eq!(repeated("plain text\n"), "plain text");
    assert_eq!(repeated(r#"{"error":{"message":"m"}}"#), "m");
    assert_eq!(repeated(r#"{"error":"m"}"#), r#"{"error":"m"}"#);
    assert_eq!(error_message("a body", Some("")), "no body");
    assert_eq!(error_message(&"x".repeat(301), None), "x".repeat(300));
    assert_eq!(error_message("a body", Some(&"é".repeat(301))), "é".repeat(300));
}

#[test]
fn a_trailing_slash_on_the_base_url_does_not_double_up() {
    assert_eq!(
        endpoint("http://localhost:1/v1/"),
        "http://localhost:1/v1/embeddings"
    );
    assert_eq!(
        endpoint("http://localhost:1/v1"),
        "http://localhost:1/v1/embeddings"
    );
    assert_eq!(model_id("mock-embed"), "api:mock-embed");
}

#[test]
fn a_rejected_key_fails_at_construction_with_the_providers_words() {
    let body =
        r#"{"error":{"message":"Incorrect API key provided","type":"invalid_request_error"}}"#;
    let Err(Outcome::Final(text)) = judge_status("http://e", 401, body, provider_words(body).as_deref())
    else {
        panic!("a 4xx is final: no retry");
    };
    assert!(text.contains("401"), "{text}");
    assert!(text.contains("Incorrect API key provided"), "{text}");
}

#[test]
fn a_429_is_retried_and_a_wrong_count_is_final() {
    let Err(outcome) = judge_status("http://e", 429, "slow down", None) else {
        panic!("refused");
    };
    assert!(matches!(outcome, Outcome::Transient(_)));
    assert!(matches!(
        after_attempt(1, outcome),
        Retry::Again { wait_ms: 500 }
    ));
    assert!(judge_status("http://e", 200, "", None).is_ok());
    let Err(Outcome::Final(text)) = order_answer("http://e", &[0], 2) else {
        panic!("one vector for two inputs is refused");
    };
    assert!(text.contains("1 vectors for 2 inputs"), "{text}");
}

#[test]
fn spent_attempts_are_counted_in_the_words() {
    let Retry::GiveUp { message, .. } =
        after_attempt(ATTEMPTS, Outcome::Transient("down".to_owned()))
    else {
        panic!("the last attempt gives up");
    };
    assert_eq!(message, "after 3 attempts: down");
    let Retry::GiveUp { wait_ms, message } =
        after_attempt(1, Outcome::Final("no".to_owned()))
    else {
        panic!("a final refusal gives up");
    };
    assert_eq!((wait_ms, message.as_str()), (0, "no"));
}

#[test]
fn vectors_come_back_in_input_order() {
    assert_eq!(order_answer("e", &[1, 0], 2).unwrap(), vec![1, 0]);
    assert_eq!(order_answer("e", &[2, 0, 1], 3).unwrap(), vec![1, 2, 0]);
    assert_eq!(learn_width("m", "e", &[2]), Ok(2));
    assert_eq!(
        learn_width("m", "e", &[]),
        Err("m at e answered the probe with no vector".to_owned())
    );
}

fn config() -> Json {
    parse(r#"{"hidden_size":1024,"num_attention_heads":16,"num_key_value_heads":8}"#)
        .expect("config")
}

#[test]
fn a_session_is_planned_from_what_the_graph_asks_for() {
    let inputs = strings(&["input_ids", "position_ids", "past_key_values.0.key"]);
    let outputs = strings(&["last_hidden_state"]);
    let plan = plan_session(&inputs, &outputs, &config(), false).expect("plan");
    assert!(plan.wants_position_ids);
    assert_eq!(plan.past_inputs, strings(&["past_key_values.0.key"]));
    assert_eq!((plan.kv_heads, plan.head_dim), (8, 64));
    assert!(!plan.pooled);
    assert!(plan.append_eos);
    assert_eq!(
        tokenizer_inputs(&plan, &strings(&["a"]), "<eos>"),
        strings(&["a<eos>"])
    );

    let pooled = plan_session(
        &strings(&["input_ids"]),
        &strings(&["sentence_embedding"]),
        &Json::Null,
        true,
    )
    .expect("no cache, no configuration");
    assert!(pooled.pooled && !pooled.append_eos);
    assert_eq!(
        tokenizer_inputs(&pooled, &strings(&["a"]), "<eos>"),
        strings(&["a"])
    );
}

#[test]
fn a_configuration_that_lacks_a_number_is_named() {
    let inputs = strings(&["past_key_values.0.key"]);
    let error = plan_session(&inputs, &[], &parse(r#"{"head_dim":64}"#).unwrap(), true)
        .expect_err("no heads");
    assert_eq!(error, "config.json lacks num_key_value_heads");
    assert!(read_config("{").expect_err("not JSON").starts_with("config.json: "));
    assert_eq!(
        pad_id(None, "<eos>"),
        Err("tokenizer has no <eos> token".to_owned())
    );
    assert_eq!(pad_id(Some(7), "<eos>"), Ok(7));
}

#[test]
fn rows_are_laid_out_and_pooled_at_their_last_token() {
    let encodings = [
        Encoding {
            ids: vec![5, 6, 7],
            mask: vec![1, 1, 1],
        },
        Encoding {
            ids: vec![8, 0, 0],
            mask: vec![1, 0, 0],
        },
    ];
    let laid = lay_out(&encodings);
    assert_eq!((laid.rows, laid.len), (2, 3));
    assert_eq!(laid.ids, vec![5, 6, 7, 8, 0, 0]);
    assert_eq!(laid.mask, vec![1, 1, 1, 1, 0, 0]);
    assert_eq!(laid.positions, vec![0, 1, 2, 0, 1, 2]);
    assert_eq!(pooled_positions(&encodings), Ok(vec![2, 0]));
    let blank = [Encoding {
        ids: vec![0],
        mask: vec![0],
    }];
    assert_eq!(
        pooled_positions(&blank),
        Err("row 0 attends to no token".to_owned())
    );
}

#[test]
fn scores_come_back_in_passage_order() {
    let reranker = FastembedReranker;
    assert_eq!(
        reranker.place(&[(2, 30), (0, 10), (1, 20)], 3),
        vec![10, 20, 30]
    );
    assert_eq!(reranker.place(&[], 2), vec![0, 0]);
}

#[test]
fn the_static_model_prefers_a_local_copy() {
    assert_eq!(source(Some("/m".to_owned()), true), "/m");
    assert_eq!(
        source(Some("/m".to_owned()), false),
        "minishlab/potion-base-8M"
    );
    assert_eq!(source(None, true), "minishlab/potion-base-8M");
    assert!(check_probe("/m", 256).is_ok());
    assert_eq!(
        check_probe("/m", 3).unwrap_err().text(),
        "embedder potion-base-8M: model at /m embeds into 3 dimensions, expected 256"
    );
}

#[test]
fn a_model_file_of_another_width_is_refused() {
    assert_eq!(thread_name("bge"), "llama-bge");
    assert_eq!(check_file("/m.gguf", 768, 768), Ok(()));
    assert_eq!(
        check_file("/m.gguf", 384, 768),
        Err("/m.gguf is 384-dimensional, expected 768".to_owned())
    );
    assert_eq!(query_vector("bge", vec![vec![1, 2]]).unwrap(), vec![1, 2]);
    assert_eq!(
        query_vector("bge", vec![]).unwrap_err().text(),
        "embedder bge: model returned no vector for the query"
    );
    let joined = EmbedError::Join {
        message: "cancelled".to_owned(),
    };
    assert_eq!(joined.text(), "embedding task failed: cancelled");
}
