use agmem::domain::json::{parse, Json};
use agmem::server::args::HookEvent;
use agmem::server::hook::events::{
    event_name, post_tool_use, session_start, stop, Reaction, STOP_NUDGE,
};
use agmem::server::hook::log::{
    first_time, is_stale, recalled, safe_name, session_log, wrote, Entry,
};
use agmem::server::hook::payload::{mcp_parts, response_body, strings_at};
use agmem::server::hook::shell::{branch_of, is_push, slug, strip_quoted};
use agmem::server::wire::{entry_line, reply_line};

fn json(text: &str) -> Json {
    parse(text).expect("JSON")
}

fn entry(kind: &str, name: &str, ids: &[&str], cites: &[&str]) -> Entry {
    let owned = |items: &[&str]| items.iter().map(|item| (*item).to_owned()).collect();
    Entry {
        at: "2026-01-01T00:00:00Z".to_owned(),
        kind: kind.to_owned(),
        name: name.to_owned(),
        ids: owned(ids),
        cites: owned(cites),
    }
}

/// Append what a reaction asks for, as the log would.
fn apply(entries: &mut Vec<Entry>, reaction: &Reaction) {
    if let Some(new) = &reaction.log {
        entries.push(Entry {
            at: "2026-01-01T00:00:00Z".to_owned(),
            kind: new.kind.to_owned(),
            name: new.name.to_owned(),
            ids: new.ids.clone(),
            cites: new.cites.clone(),
        });
    }
}

#[test]
fn a_push_is_recognised_and_a_mention_is_not() {
    assert!(is_push("git push"));
    assert!(is_push("git push -u origin main"));
    assert!(is_push("cargo test && git push"));
    assert!(is_push("/usr/bin/git push"));
    assert!(is_push("git -C /repo push --force-with-lease"));
    assert!(!is_push("git commit -m 'push it'"));
    assert!(!is_push("echo \"git push\""));
    assert!(!is_push("grep push src/"));
    assert!(!is_push("git log --grep push"));
}

#[test]
fn plugin_scoped_and_bare_tool_names_split_alike() {
    let parts = |tool: &str| mcp_parts(tool);
    assert_eq!(
        parts("mcp__agmem__recall"),
        Some(("agmem".to_owned(), "recall".to_owned()))
    );
    assert_eq!(
        parts("mcp__plugin_agmem_agmem__reflect"),
        Some(("plugin_agmem_agmem".to_owned(), "reflect".to_owned()))
    );
    assert_eq!(parts("Bash"), None);
}

#[test]
fn a_response_is_read_through_any_of_its_wrappings() {
    let object = r#"{"hits": [{"id": "A"}, {"id": "B"}]}"#;
    let quoted = serde_json::Value::from(object).to_string();
    let shapes = [
        object.to_owned(),
        quoted.clone(),
        format!(r#"[{{"type": "text", "text": {quoted}}}]"#),
        format!(r#"{{"content": [{{"type": "text", "text": {quoted}}}]}}"#),
    ];
    for shape in &shapes {
        let response = json(shape);
        let body = response_body(&response).unwrap_or(response);
        assert_eq!(strings_at(&body, &["hits"], "id"), vec!["A", "B"], "{shape}");
    }
}

#[test]
fn slugs_match_the_hook_scripts_rule() {
    assert_eq!(slug("fix/takeover-lock-order"), "fix-takeover-lock-order");
    assert_eq!(slug("release/v1.2.3+build"), "release-v1.2.3-build");
    assert_eq!(slug("///"), "detached");
    assert_eq!(slug("a b  c"), "a-b-c");
}

#[test]
fn a_branch_comes_from_an_answer_that_names_one() {
    assert_eq!(branch_of(true, "main\n"), Some("main".to_owned()));
    assert_eq!(branch_of(false, "main\n"), None);
    assert_eq!(branch_of(true, "  \n"), None);
}

#[test]
fn a_log_line_and_a_reply_are_one_line_each() {
    let reaction = post_tool_use(
        &json(
            r#"{"tool_name": "mcp__agmem__recall", "tool_response": {"hits": [{"id": "A"}]}}"#,
        ),
        &[],
    );
    let new = reaction.log.expect("a recall is logged");
    assert_eq!(
        entry_line("2026-01-01T00:00:00Z", &new),
        r#"{"at":"2026-01-01T00:00:00Z","kind":"recall","name":"recall","ids":["A"]}"#
    );
    let reply = reply_line(HookEvent::Stop, "First.\nSecond \"quoted\".");
    assert!(!reply.contains('\n'), "{reply}");
    let output = json(&reply);
    let inner = output.get("hookSpecificOutput").expect("an output");
    assert_eq!(inner.get_str("hookEventName"), Some("Stop"));
    assert_eq!(
        inner.get_str("additionalContext"),
        Some("First.\nSecond \"quoted\".")
    );
}

#[test]
fn quoted_words_are_left_out() {
    assert!(!strip_quoted("echo 'git push' now").contains("git push"));
    assert!(strip_quoted("git push 'x'").contains("git push"));
}

#[test]
fn a_session_id_cannot_name_a_path() {
    assert_eq!(safe_name("../../etc/passwd"), "..-..-etc-passwd");
    assert!(!safe_name("a/b\\c").contains(['/', '\\']));
    assert_eq!(safe_name(".."), "nosession");
    assert_eq!(safe_name(""), "nosession");
}

#[test]
fn a_session_log_lies_under_the_data_dir() {
    let log = session_log("/data", &json(r#"{"session_id": "a/b"}"#));
    assert!(log.file.starts_with(&log.dir) && log.dir.starts_with("/data/"));
    assert!(log.file.ends_with("a-b.jsonl"), "{}", log.file);
    let day = 86_400_000_000_000;
    assert!(is_stale(0, 7 * day + 1) && !is_stale(0, 7 * day));
}

#[test]
fn the_log_round_trips_and_nudges_once() {
    let mut entries = vec![];
    assert!(recalled(&entries).is_empty());
    entries.push(entry("recall", "recall", &["A", "B"], &[]));
    entries.push(entry("recall", "recall", &["B", "C"], &[]));
    assert_eq!(recalled(&entries), vec!["B", "C", "A"]);
    assert!(!wrote(&entries));
    assert!(first_time(&entries, "push"));
    entries.push(entry("nudge", "push", &[], &[]));
    assert!(!first_time(&entries, "push"));
    entries.push(entry("write", "reflect", &["D"], &["A"]));
    assert!(wrote(&entries));
}

#[test]
fn stop_nudges_only_a_session_that_recalled_and_never_wrote() {
    let payload = json(r#"{"session_id": "s2", "stop_hook_active": false}"#);
    let mut entries = vec![];
    assert_eq!(stop(&payload, &entries).say, None, "nothing recalled");
    entries.push(entry("recall", "recall", &["A"], &[]));
    let nudge = stop(&payload, &entries);
    assert_eq!(nudge.say, Some(STOP_NUDGE), "recalled, not written");
    apply(&mut entries, &nudge);
    assert_eq!(stop(&payload, &entries).say, None, "once per session");

    let fresh = vec![
        entry("recall", "recall", &["A"], &[]),
        entry("write", "remember", &["B"], &[]),
    ];
    assert_eq!(
        stop(&json(r#"{"session_id": "s3"}"#), &fresh).say,
        None,
        "wrote"
    );

    let looping = json(r#"{"session_id": "s2", "stop_hook_active": true}"#);
    let unnudged = vec![entry("recall", "recall", &["A"], &[])];
    assert_eq!(stop(&looping, &unnudged).say, None, "already continuing");
    assert_eq!(stop(&looping, &entries).say, None, "already continuing");
}

#[test]
fn post_tool_use_logs_recalls_and_writes_and_nudges_seams() {
    let mut entries: Vec<Entry> = vec![];
    let mut react = |entries: &mut Vec<Entry>, payload: &str| {
        let reaction = post_tool_use(&json(payload), entries);
        apply(entries, &reaction);
        reaction.say
    };

    let recall = r#"{
        "session_id": "s4",
        "tool_name": "mcp__plugin_agmem_agmem__recall",
        "tool_input": {"query": "q"},
        "tool_response": {"hits": [{"id": "A"}, {"id": "B"}]}
    }"#;
    assert_eq!(react(&mut entries, recall), None);
    assert_eq!(recalled(&entries), vec!["A", "B"]);

    let reflect = r#"{
        "session_id": "s4",
        "tool_name": "mcp__agmem__reflect",
        "tool_input": {"insight": "x", "derived_from": ["A"]},
        "tool_response": {"id": "C", "created": true}
    }"#;
    assert_eq!(react(&mut entries, reflect), None);
    let writes: Vec<&Entry> = entries.iter().filter(|e| e.kind == "write").collect();
    assert_eq!(writes.len(), 1);
    assert_eq!(writes[0].ids, vec!["C"]);
    assert_eq!(writes[0].cites, vec!["A"]);

    let other_server = r#"{
        "session_id": "s4",
        "tool_name": "mcp__memory__recall",
        "tool_response": {"hits": [{"id": "Z"}]}
    }"#;
    assert_eq!(react(&mut entries, other_server), None);
    assert!(!recalled(&entries).contains(&"Z".to_owned()));

    let push = r#"{
        "session_id": "s4",
        "tool_name": "Bash",
        "tool_input": {"command": "git push origin HEAD"},
        "tool_response": {"exit_code": 0}
    }"#;
    assert!(react(&mut entries, push).is_some());
    assert_eq!(react(&mut entries, push), None, "once per session");

    let failed_push = r#"{
        "session_id": "s5",
        "tool_name": "Bash",
        "tool_input": {"command": "git push"},
        "tool_response": {"exit_code": 1}
    }"#;
    assert_eq!(react(&mut vec![], failed_push), None);

    let decision = r#"{"session_id": "s4", "tool_name": "AskUserQuestion"}"#;
    assert!(react(&mut entries, decision).is_some());
    assert_eq!(react(&mut entries, decision), None, "once per session");
    let last = entries.last().expect("the nudge is logged");
    assert_eq!((last.kind.as_str(), last.name.as_str()), ("nudge", "decision"));
}

#[test]
fn a_session_starts_with_its_briefing() {
    let payload = json(r#"{"session_id": "s", "source": "startup"}"#);
    let text = session_start(&payload, &[], Some("The user prefers Rust."), Some("fix/x"));
    assert!(text.contains("The user prefers Rust."), "{text}");
    assert!(text.contains("branch:fix-x"), "{text}");
    assert_eq!(event_name(HookEvent::SessionStart), "SessionStart");
    assert_eq!(event_name(HookEvent::PostToolUse), "PostToolUse");
    assert_eq!(event_name(HookEvent::Stop), "Stop");
}

#[test]
fn a_compacted_session_is_told_what_it_had_recalled() {
    let payload = json(r#"{"session_id": "s", "source": "compact"}"#);
    let entries = vec![entry("recall", "recall", &["A", "B"], &[])];
    let text = session_start(&payload, &entries, None, None);
    assert!(text.contains('A') && text.contains('B'), "{text}");
}
