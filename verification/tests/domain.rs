use agmem::domain::chunk::{chunk, TARGET_CHARS};
use agmem::domain::dedup::{content_hash, normalize, Bands};
use agmem::domain::error::CoreError;
use agmem::domain::json::{parse, quote, Json};
use agmem::domain::model::{
    is_ulid, ChunkId, DecayClass, EpisodeId, InvalidReason, Kind, MemoryId, MemoryRecord, Source, SpaceName,
    Timestamp,
};
use agmem::domain::scoring::{is_valid_at, rank_order, total_order_key};

/// Whitespace-collapsed form; the chunker is only lossless up to this.
fn squashed(text: &str) -> String {
    text.split_whitespace().collect::<Vec<_>>().join(" ")
}

#[test]
fn short_text_is_one_chunk() {
    assert_eq!(chunk("a short episode"), vec!["a short episode"]);
    assert!(chunk("   \n\t  ").is_empty());
    assert!(chunk("").is_empty());
}

#[test]
fn paragraphs_pack_together_until_the_budget() {
    let paragraph = "x".repeat(900);
    let text = format!("{paragraph}\n\n{paragraph}\n\n{paragraph}");
    let chunks = chunk(&text);

    assert_eq!(chunks.len(), 3, "900-char paragraphs cannot pair up");
    let text = format!("{}\n\n{}", "y".repeat(700), "z".repeat(700));
    assert_eq!(chunk(&text).len(), 1, "but 700-char ones can");
}

#[test]
fn an_overlong_paragraph_is_cut_at_sentences() {
    let sentence = format!("{}. ", "word".repeat(100));
    let text = sentence.repeat(6);
    let chunks = chunk(&text);

    assert!(chunks.len() > 1, "3000 chars must split");
    for piece in &chunks {
        assert!(piece.chars().count() <= TARGET_CHARS, "{}", piece.len());
        assert!(piece.ends_with('.'), "no mid-sentence cuts: {piece:?}");
    }
}

#[test]
fn an_unbreakable_run_becomes_its_own_oversized_chunk() {
    let blob = "b".repeat(TARGET_CHARS * 2);
    let chunks = chunk(&format!("intro.\n\n{blob}\n\noutro."));

    assert!(chunks.iter().any(|piece| piece == &blob));
    assert_eq!(
        squashed(&chunks.join(" ")),
        squashed(&format!("intro. {blob} outro."))
    );
}

#[test]
fn chunking_loses_no_words_on_mixed_text() {
    let text = "One.  Two!\tThree?\n\n\u{3000}Four 五。\r\n\r\n".repeat(300);
    let chunks = chunk(&text);
    assert!(chunks.len() > 1);
    assert_eq!(squashed(&chunks.join(" ")), squashed(&text));
    for piece in &chunks {
        assert!(
            piece.chars().count() <= TARGET_CHARS || !piece.contains(char::is_whitespace),
            "over budget with a cut available: {piece:?}"
        );
    }
}

#[test]
fn a_paragraph_of_words_without_sentences_is_wrapped() {
    let text = "word ".repeat(1000);
    let chunks = chunk(&text);
    assert!(chunks.len() >= 3, "{}", chunks.len());
    assert!(chunks.iter().all(|piece| piece.chars().count() <= TARGET_CHARS));
    assert_eq!(squashed(&chunks.join(" ")), squashed(&text));
}

#[test]
fn normalization_folds_case_and_whitespace() {
    assert_eq!(
        normalize("  The\tUser \n prefers  Rust "),
        "the user prefers rust"
    );
    assert_eq!(normalize(""), "");
    assert_eq!(normalize("   \n\t "), "");
}

#[test]
fn normalization_folds_letters_beyond_ascii() {
    assert_eq!(normalize("ÀÉ  ΑΣ"), "àé ας");
}

#[test]
fn normalizing_twice_changes_nothing_on_ordinary_text() {
    for text in ["  The User ", "ΑΣ ß İ", "a\u{a0}b", ""] {
        let once = normalize(text);
        assert_eq!(normalize(&once), once);
    }
}

#[test]
fn a_text_in_lower_case_is_only_collapsed() {
    assert_eq!(normalize("  déjà \n  vu  "), "déjà vu");
    assert_eq!(normalize(&normalize("  déjà \n  vu  ")), "déjà vu");
}

#[test]
fn the_same_claim_hashes_the_same_however_it_was_typed() {
    assert_eq!(
        content_hash("The user prefers Rust"),
        content_hash("the   user\nprefers rust  ")
    );
    assert_ne!(
        content_hash("the user prefers Rust"),
        content_hash("the user prefers Python")
    );
}

#[test]
fn a_hash_is_the_digest_of_the_normal_form_in_hex() {
    assert_eq!(
        content_hash("The User"),
        blake3::hash(b"the user").to_hex().to_string()
    );
    assert_eq!(
        content_hash("  "),
        "af1349b9f5f9a1a6a0404dea36dcc9499bcb25c9adc112b7cc9a93cae41f3262"
    );
}

#[test]
fn every_model_keeps_its_bands_ordered() {
    for table in [Bands::bge_small(), Bands::gemma_300m()] {
        assert!(table.correction_floor < table.cluster);
        assert!(table.cluster <= table.near_dup);
        assert!(table.abstention < table.correction_floor);
        let correction = |similarity: u8| {
            table.correction_floor <= similarity && similarity < table.near_dup
        };
        assert!(correction(table.correction_floor));
        assert!(!correction(table.near_dup));
    }
}

#[test]
fn the_bands_of_the_small_model_are_the_measured_ones() {
    let bge = Bands::bge_small();
    assert_eq!(bge.near_dup, 95);
    assert_eq!(bge.cluster, 90);
}

#[test]
fn accepts_valid_slugs() {
    for name in ["default", "user", "a", "my-project_1", &"x".repeat(64)] {
        assert!(SpaceName::new(name).is_ok(), "should accept {name:?}");
    }
}

#[test]
fn rejects_invalid_slugs() {
    for name in [
        "",
        "Upper",
        "has space",
        "dot.dot",
        "../etc",
        "é",
        &"x".repeat(65),
    ] {
        assert!(SpaceName::new(name).is_err(), "should reject {name:?}");
    }
}

#[test]
fn a_refused_name_or_id_is_repeated_in_the_error() {
    let Err(error) = SpaceName::new("Upper") else {
        panic!("refused");
    };
    assert!(matches!(&error, CoreError::InvalidSpaceName(held) if held == "Upper"));
    assert!(error.text().contains("Upper"), "{}", error.text());
    let Err(error) = ChunkId::new("nope") else {
        panic!("refused");
    };
    assert!(matches!(&error, CoreError::InvalidRecordId(held) if held == "nope"));
    assert!(error.text().contains("nope"), "{}", error.text());
    let unknown = CoreError::UnknownVariant {
        name: "kind",
        value: "guess".to_owned(),
    };
    assert!(unknown.text().contains("kind") && unknown.text().contains("guess"));
}

#[test]
fn kind_picks_its_default_decay_class() {
    assert_eq!(Kind::Fact.default_decay_class(), DecayClass::Normal);
    assert_eq!(Kind::Lesson.default_decay_class(), DecayClass::Slow);
    assert_eq!(Kind::Instruction.default_decay_class(), DecayClass::Pinned);
    assert_eq!(DecayClass::default(), Kind::Fact.default_decay_class());
}

#[test]
fn accepts_ulids_and_rejects_anything_else() {
    assert!(MemoryId::new("01M145SMNET1XRYA713EWAQTD3").is_ok());
    for bad in [
        "",
        "memory:01M145SMNET1XRYA713EWAQTD3",
        "01m145smnet1xrya713ewaqtd3",
        "01M145SMNET1XRYA713EWAQTD",
        "01M145SMNET1XRYA713EWAQTD3X",
    ] {
        assert!(EpisodeId::new(bad).is_err(), "should reject {bad:?}");
    }
}

#[test]
fn a_ulid_has_no_letter_that_reads_as_a_digit() {
    for letter in ["I", "L", "O", "U"] {
        let id = format!("01M145SMNET1XRYA713EWAQTD{letter}");
        assert!(!is_ulid(&id), "should reject {id}");
        assert!(MemoryId::new(&id).is_err(), "should reject {id}");
        assert!(EpisodeId::new(&id).is_err(), "should reject {id}");
        assert!(ChunkId::new(&id).is_err(), "should reject {id}");
    }
    assert!(is_ulid("0123456789ABCDEFGHJKMNPQRS"));
    assert!(is_ulid("00000000000000000000TVWXYZ"));
}

#[test]
fn enums_use_the_row_spellings() {
    assert_eq!(Kind::Instruction.as_str(), "instruction");
    assert_eq!(DecayClass::Fast.as_str(), "fast");
    assert_eq!(InvalidReason::Superseded.as_str(), "superseded");
    assert_eq!(Kind::Lesson.as_str(), "lesson");
}

#[test]
fn ids_and_spaces_validate_while_deserializing() {
    let read = |text: &str| -> String {
        serde_json::from_value(serde_json::Value::from(text)).unwrap()
    };
    assert!(MemoryId::new(&read("nope")).is_err());
    assert!(SpaceName::new(&read("Nope!")).is_err());
    assert_eq!(SpaceName::new(&read("user")).unwrap(), SpaceName::user());
}

fn days(n: i128) -> Timestamp {
    Timestamp {
        nanos: 1_700_000_000_000_000_000 - n * 86_400_000_000_000,
    }
}

fn memory() -> MemoryRecord {
    MemoryRecord {
        id: MemoryId::new("01M145SMNH1V44GYMHB5KG5MXJ").unwrap(),
        space: SpaceName::user(),
        kind: Kind::Fact,
        content: "the user prefers Rust over Python".to_owned(),
        content_hash: "deadbeef".to_owned(),
        entities: vec!["user".to_owned()],
        tags: vec![],
        embedding: None,
        decay_class: Kind::Fact.default_decay_class(),
        strength: 1.0f64.to_bits(),
        last_accessed: days(10),
        access_count: 0,
        valid_from: days(10),
        invalid_at: None,
        invalid_reason: None,
        supersedes: vec![],
        superseded_by: None,
        source: Source::Episode {
            episode: EpisodeId::new("01M145SMNET1XRYA713EWAQTD3").unwrap(),
        },
        derived_from: vec![],
        created_at: days(10),
    }
}

#[test]
fn a_record_is_live_until_it_is_closed() {
    let mut record = memory();
    assert!(record.is_live());
    record.invalid_at = Some(days(1));
    assert!(!record.is_live());
}

#[test]
fn validity_window_is_half_open() {
    let mut record = memory();
    record.valid_from = days(10);
    record.invalid_at = Some(days(5));

    assert!(!is_valid_at(&record, days(11)));
    assert!(is_valid_at(&record, days(10)), "valid_from is inclusive");
    assert!(is_valid_at(&record, days(6)));
    assert!(!is_valid_at(&record, days(5)), "invalid_at is exclusive");

    record.invalid_at = None;
    assert!(
        is_valid_at(&record, days(0)),
        "live records have no upper bound"
    );
}

#[test]
fn ranking_is_stable_under_ties() {
    assert_eq!(rank_order(&[7, 7, 7]), vec![0, 1, 2]);
    assert_eq!(rank_order(&[1, 3, 3, 2]), vec![1, 2, 3, 0]);
    assert!(rank_order(&[]).is_empty());
}

#[test]
fn order_keys_follow_the_total_order_of_floats() {
    let ascending = [
        f64::NEG_INFINITY,
        -1.5,
        -0.0,
        0.0,
        f64::MIN_POSITIVE,
        1.0,
        f64::INFINITY,
    ];
    for pair in ascending.windows(2) {
        assert!(
            total_order_key(pair[0].to_bits()) < total_order_key(pair[1].to_bits()),
            "{pair:?}"
        );
    }
}

#[test]
fn decay_rates_and_importances_are_the_documented_ones() {
    assert_eq!(DecayClass::Pinned.rate_per_mille(), 0);
    assert!(DecayClass::Slow.rate_per_mille() < DecayClass::Normal.rate_per_mille());
    assert!(DecayClass::Normal.rate_per_mille() < DecayClass::Fast.rate_per_mille());
    assert!(DecayClass::Pinned.importance_percent() > DecayClass::Fast.importance_percent());
    assert_eq!(DecayClass::Normal.importance_percent(), 50);
}

#[test]
fn a_quoted_text_is_escaped_and_reads_back() {
    let text = "a \"b\" \\ \u{8}\t\n\u{c}\r\u{1}\u{1f}\u{7f} é / \u{2028}";
    assert_eq!(
        quote(text),
        "\"a \\\"b\\\" \\\\ \\b\\t\\n\\f\\r\\u0001\\u001f\u{7f} é / \u{2028}\""
    );
    for c in (0u8..128).map(char::from) {
        let text = c.to_string();
        assert_eq!(quote(&text), serde_json::Value::from(text.as_str()).to_string());
        assert_eq!(parse(&quote(&text)), Ok(Json::Text(text)));
    }
}

#[test]
fn a_document_reads_as_its_value() {
    let value = parse(r#"{"a":[1,"two",null,true],"b":{"c":-3},"d":1.5}"#).expect("JSON");
    let items = value.get("a").and_then(Json::as_array).expect("array");
    assert_eq!(items[0].as_u64(), Some(1));
    assert_eq!(items[1].as_str(), Some("two"));
    assert_eq!(items[2], Json::Null);
    assert_eq!(items[3].as_bool(), Some(true));
    let inner = value.get("b").expect("object");
    assert_eq!(inner.get("c").and_then(Json::as_i64), Some(-3));
    assert_eq!(inner.get("c").and_then(Json::as_u64), None);
    assert_eq!(value.get("d"), Some(&Json::Number(None)));
    assert_eq!(value.get("e"), None);
    assert_eq!(value.get_str("b"), None);
    assert!(parse("{").is_err());
    assert!(parse("").is_err());
}
