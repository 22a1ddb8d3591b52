use agentmesh::error::CodexExecError;
use agentmesh::json::{parse, to_text};
use agentmesh::session::{
    extract_thread_id_from_event_line, extract_thread_id_from_events, finish_worker,
    maybe_update_session_thread_id, session_descriptor, CodexExecStartRequest, ThreadIdField,
    WorkerFinalStatus,
};

#[test]
fn extract_thread_id_from_thread_started_event() {
    let line = r#"{"type":"thread.started","thread_id":"thr_123"}"#;
    assert_eq!(extract_thread_id_from_event_line(line).as_deref(), Some("thr_123"));
}

#[test]
fn extract_thread_id_ignores_other_events() {
    let line = r#"{"type":"turn.started"}"#;
    assert_eq!(extract_thread_id_from_event_line(line), None);
}

#[test]
fn extract_thread_id_accepts_camel_case() {
    let line = r#"{"type":"thread.started","threadId":"thr_9"}"#;
    assert_eq!(extract_thread_id_from_event_line(line).as_deref(), Some("thr_9"));
    assert_eq!(extract_thread_id_from_event_line("not json"), None);
}

#[test]
fn first_announced_thread_wins() {
    let events = "\n  garbage\n{\"type\":\"x\"}\r\n {\"type\":\"thread.started\",\"thread_id\":\"a\"} \n{\"type\":\"thread.started\",\"thread_id\":\"b\"}\n";
    assert_eq!(extract_thread_id_from_events(events).as_deref(), Some("a"));
    assert_eq!(extract_thread_id_from_events(""), None);
}

#[test]
fn descriptor_has_portable_recording_paths() {
    let d = session_descriptor("codex-exec", ThreadIdField::Omitted, None, "/w", "./codex_home", false);
    assert_eq!(
        to_text(&d),
        r#"{"adapter":"codex-exec","vendorSession":{"tool":"codex","cwd":"/w","codexHome":"./codex_home"},"recording":{"events":"./runtime/events.jsonl","stderr":"./runtime/stderr.log"}}"#
    );
    let d = session_descriptor(
        "codex-app-server",
        ThreadIdField::Known("thr".to_string()),
        Some("parent"),
        "/w",
        ".",
        true,
    );
    assert_eq!(
        to_text(&d),
        r#"{"adapter":"codex-app-server","vendorSession":{"tool":"codex","threadId":"thr","forkedFromThreadId":"parent","cwd":"/w","codexHome":"."},"recording":{"requests":"./runtime/requests.jsonl","events":"./runtime/events.jsonl","stderr":"./runtime/stderr.log"}}"#
    );
}

#[test]
fn repair_sets_thread_id_and_nothing_else() {
    let descriptor = to_text(&session_descriptor(
        "codex-exec",
        ThreadIdField::Null,
        None,
        "/w",
        "./codex_home",
        false,
    ));
    let events = "{\"type\":\"thread.started\",\"thread_id\":\"thr_1\"}\n";
    let rewritten = maybe_update_session_thread_id(events, &descriptor).unwrap().unwrap();
    let doc = parse(&rewritten).unwrap();
    let want = session_descriptor(
        "codex-exec",
        ThreadIdField::Known("thr_1".to_string()),
        None,
        "/w",
        "./codex_home",
        false,
    );
    assert_eq!(to_text(&doc), to_text(&want));
    assert_eq!(maybe_update_session_thread_id(events, &rewritten).unwrap(), None);
    assert_eq!(maybe_update_session_thread_id("", &descriptor).unwrap(), None);
    assert!(maybe_update_session_thread_id(events, "{broken").is_err());
}

#[test]
fn start_request_defaults() {
    let r = CodexExecStartRequest::new("a".into(), "c".into(), "p".into(), "s".into());
    assert_eq!(r.codex_bin, "codex");
    assert_eq!(r.codex_home, None);
    assert_eq!(r.prompt, "p");
}

#[test]
fn missing_final_output_is_its_own_error() {
    let err = finish_worker(Some(0), None, None, "/x/final.json").unwrap_err();
    assert_eq!(err, CodexExecError::MissingFinalOutput { path: "/x/final.json".to_string() });
    assert!(matches!(
        finish_worker(Some(0), None, Some("nope"), "/x").unwrap_err(),
        CodexExecError::Json(_)
    ));
    assert!(matches!(
        finish_worker(Some(0), None, Some(r#"{"status":"odd","summary":"s"}"#), "/x").unwrap_err(),
        CodexExecError::Json(_)
    ));
    assert!(matches!(
        finish_worker(Some(0), None, Some(r#"{"status":"success","summary":"s","questions":[1]}"#), "/x")
            .unwrap_err(),
        CodexExecError::Json(_)
    ));
    let ok = finish_worker(
        Some(3),
        Some("thr".to_string()),
        Some(r#"{"status":"blocked","summary":"s","nextActions":["n"],"artifacts":null}"#),
        "/x",
    )
    .unwrap();
    assert_eq!(ok.exit_code, Some(3));
    assert_eq!(ok.thread_id.as_deref(), Some("thr"));
    assert_eq!(ok.final_output.status, WorkerFinalStatus::Blocked);
    assert_eq!(ok.final_output.next_actions, vec!["n".to_string()]);
    assert!(ok.final_output.artifacts.is_none());
    assert!(ok.final_output.questions.is_empty());
}
