use agentmesh::error::CodexAppServerError;
use agentmesh::json::{parse, to_text, Json};
use agentmesh::pool::{app_server_id, app_server_id_for_key, normalize_profile, CodexAppServerPool, EnsureAction};
use agentmesh::rpc::{
    as_i64, classify_inbound, extract_thread_id_from_thread_result, frame_line, initialize_params,
    merge_json_objects, notification_frame, read_line, request_frame, request_result,
    response_frame, resumed_thread_id, rollback_params, stderr_event, thread_params,
    CodexAppServerSpawnRequest, Reply, RequestIds, RequestOutcome,
};
use agentmesh::turn::{
    extract_json_from_text, final_artifact, thread_plan, turn_start_params, wrapped_prompt, ThreadPlan,
    TurnState,
};

fn doc(text: &str) -> Json {
    parse(text).unwrap()
}

#[test]
fn request_ids_start_at_minus_one_and_decrease() {
    let mut ids = RequestIds::new();
    let got: Vec<i64> = (0..5).map(|_| ids.allocate()).collect();
    assert_eq!(got, vec![-1, -2, -3, -4, -5]);
}

#[test]
fn frames_have_the_three_envelopes() {
    assert_eq!(
        frame_line(&request_frame(-1, "initialize", Some(doc(r#"{"a":1}"#)))),
        "{\"id\":-1,\"method\":\"initialize\",\"params\":{\"a\":1}}\n"
    );
    assert_eq!(to_text(&request_frame(-2, "model/list", None)), r#"{"id":-2,"method":"model/list"}"#);
    assert_eq!(to_text(&notification_frame("initialized", None)), r#"{"method":"initialized"}"#);
    assert_eq!(
        to_text(&notification_frame("x", Some(Json::Null))),
        r#"{"method":"x","params":null}"#
    );
    assert_eq!(to_text(&response_frame(7, doc(r#"{"ok":true}"#))), r#"{"id":7,"result":{"ok":true}}"#);
}

#[test]
fn inbound_frames_are_classified_by_shape() {
    let r = classify_inbound(doc(r#"{"id":-1,"result":{"x":1}}"#));
    assert_eq!(r.event.kind, "response");
    match r.reply {
        Some((-1, Reply::Result(v))) => assert_eq!(to_text(&v), r#"{"x":1}"#),
        other => panic!("unexpected {other:?}"),
    }
    let r = classify_inbound(doc(r#"{"id":"-12","error":{"message":"nope"}}"#));
    assert_eq!(r.event.kind, "error");
    match r.reply {
        Some((-12, Reply::Failure(m))) => assert_eq!(m, "nope"),
        other => panic!("unexpected {other:?}"),
    }
    let r = classify_inbound(doc(r#"{"id":3,"error":{}}"#));
    match r.reply {
        Some((3, Reply::Failure(m))) => assert_eq!(m, "unknown error"),
        other => panic!("unexpected {other:?}"),
    }
    let r = classify_inbound(doc(r#"{"id":1.5,"result":null}"#));
    assert_eq!(r.event.kind, "response");
    assert!(r.reply.is_none());
    let r = classify_inbound(doc(r#"{"id":5,"method":"approve","params":{}}"#));
    assert_eq!(r.event.kind, "request");
    assert!(r.reply.is_none());
    let r = classify_inbound(doc(r#"{"method":"turn/completed"}"#));
    assert_eq!(r.event.kind, "notification");
    let r = classify_inbound(doc(r#"{"hello":"world"}"#));
    assert_eq!(r.event.kind, "unknown");
    assert_eq!(to_text(&r.event.message), r#"{"hello":"world"}"#);
    let r = classify_inbound(doc("[1,2]"));
    assert_eq!(r.event.kind, "unknown");
}

#[test]
fn ids_are_read_from_numbers_and_strings() {
    assert_eq!(as_i64(&doc("-5")), Some(-5));
    assert_eq!(as_i64(&doc("\"42\"")), Some(42));
    assert_eq!(as_i64(&doc("\"+42\"")), Some(42));
    assert_eq!(as_i64(&doc("\"-9223372036854775808\"")), Some(i64::MIN));
    assert_eq!(as_i64(&doc("\"9223372036854775808\"")), None);
    assert_eq!(as_i64(&doc("18446744073709551615")), None);
    assert_eq!(as_i64(&doc("1.0")), None);
    assert_eq!(as_i64(&doc("\" 1\"")), None);
    assert_eq!(as_i64(&doc("\"\"")), None);
    assert_eq!(as_i64(&doc("null")), None);
}

#[test]
fn lines_are_trimmed_and_blank_lines_skipped() {
    assert!(read_line("   \r\n").is_none());
    let (recorded, inbound) = read_line("  {\"method\":\"x\"}\r\n").unwrap();
    assert_eq!(recorded, "{\"method\":\"x\"}");
    assert_eq!(inbound.event.kind, "notification");
    let (recorded, inbound) = read_line("oops \u{fffd}\n").unwrap();
    assert_eq!(recorded, "oops \u{fffd}");
    assert_eq!(inbound.event.kind, "parse_error");
    assert!(inbound.reply.is_none());
    assert_eq!(inbound.event.message.str_at("line").map(|s| s.as_str()), Some("oops \u{fffd}"));
    assert!(inbound.event.message.str_at("error").is_some());
    assert!(stderr_event(" \n").is_none());
    let e = stderr_event(" warn \n").unwrap();
    assert_eq!(e.kind, "stderr");
    assert_eq!(to_text(&e.message), r#"{"line":"warn"}"#);
}

#[test]
fn request_outcomes_become_typed_errors() {
    assert_eq!(
        request_result("m", 30, RequestOutcome::TimedOut).unwrap_err(),
        CodexAppServerError::RequestTimeout { method: "m".into(), timeout_secs: 30 }
    );
    assert_eq!(
        request_result("m", 30, RequestOutcome::Closed).unwrap_err(),
        CodexAppServerError::ResponseChannelClosed { method: "m".into() }
    );
    assert_eq!(
        request_result("m", 30, RequestOutcome::Answered(Reply::Failure("bad".into()))).unwrap_err(),
        CodexAppServerError::ServerError { method: "m".into(), message: "bad".into() }
    );
    let ok = request_result("m", 30, RequestOutcome::Answered(Reply::Result(doc("[1]")))).unwrap();
    assert_eq!(to_text(&ok), "[1]");
}

#[test]
fn thread_ids_come_from_results() {
    assert_eq!(
        extract_thread_id_from_thread_result(&doc(r#"{"thread":{"id":"thr_test"}}"#)),
        Ok("thr_test".to_string())
    );
    assert_eq!(
        extract_thread_id_from_thread_result(&doc(r#"{"thread":{"id":7}}"#)),
        Err(CodexAppServerError::MissingThreadId)
    );
    assert_eq!(
        extract_thread_id_from_thread_result(&doc("{}")),
        Err(CodexAppServerError::MissingThreadId)
    );
    assert_eq!(resumed_thread_id(&doc("{}"), "asked"), "asked");
    assert_eq!(resumed_thread_id(&doc(r#"{"thread":{"id":"got"}}"#), "asked"), "got");
}

#[test]
fn overrides_are_merged_into_params() {
    let mut target = doc(r#"{"threadId":"a","keep":1}"#);
    merge_json_objects(&mut target, doc(r#"{"threadId":"b","extra":[1]}"#));
    assert_eq!(to_text(&target), r#"{"threadId":"b","keep":1,"extra":[1]}"#);
    let mut target = doc("[1]");
    merge_json_objects(&mut target, doc(r#"{"a":1}"#));
    assert_eq!(to_text(&target), "[1]");
    let mut target = doc(r#"{"a":1}"#);
    merge_json_objects(&mut target, doc("7"));
    assert_eq!(to_text(&target), r#"{"a":1}"#);
    assert_eq!(to_text(&thread_params("t", None)), r#"{"threadId":"t"}"#);
    assert_eq!(
        to_text(&thread_params("t", Some(doc(r#"{"model":"m"}"#)))),
        r#"{"threadId":"t","model":"m"}"#
    );
    assert_eq!(to_text(&rollback_params("t", 2)), r#"{"numTurns":2,"threadId":"t"}"#);
    assert_eq!(
        to_text(&initialize_params("Coco", "0.1.0")),
        r#"{"clientInfo":{"name":"codex_cli_rs","title":"Coco","version":"0.1.0"}}"#
    );
}

#[test]
fn spawn_request_defaults() {
    let r = CodexAppServerSpawnRequest::new("/agent".into(), "/cwd".into());
    assert_eq!(r.codex_bin, "codex");
    assert_eq!(r.codex_args, vec!["app-server".to_string()]);
    assert_eq!(r.codex_home, None);
    assert_eq!(r.request_timeout_secs, 30);
}

#[test]
fn profiles_are_trimmed() {
    assert_eq!(normalize_profile(Some("  dev ")), Some("dev".to_string()));
    assert_eq!(normalize_profile(Some("   ")), None);
    assert_eq!(normalize_profile(None), None);
}

#[test]
fn app_server_ids_are_hex_of_hash() {
    assert_eq!(app_server_id(0), "asrv_0000000000000000");
    assert_eq!(app_server_id(0xdead_beef), "asrv_00000000deadbeef");
    assert_eq!(app_server_id(u64::MAX), "asrv_ffffffffffffffff");
    let a = app_server_id_for_key("/home/u/.codex");
    assert_eq!(a, app_server_id_for_key("/home/u/.codex"));
    assert_eq!(a.len(), 21);
    assert!(a.starts_with("asrv_"));
    assert!(a[5..].chars().all(|c| c.is_ascii_digit() || ('a'..='f').contains(&c)));
    assert_ne!(a, app_server_id_for_key("/home/v/.codex"));
}

#[test]
fn pool_reuses_replaces_and_refuses() {
    let mut pool = CodexAppServerPool::new(2);
    assert_eq!(pool.ensure("id1", Some("dev")), EnsureAction::Spawn { id: "id1".into(), shutdown_first: false });
    pool.register("id1", "/h1", Some("dev"));
    assert_eq!(pool.ensure("id1", Some(" dev ")), EnsureAction::Reuse("id1".into()));
    assert_eq!(pool.ensure("id2", None), EnsureAction::Spawn { id: "id2".into(), shutdown_first: false });
    pool.register("id2", "/h2", None);
    assert_eq!(pool.ensure("id2", Some("  ")), EnsureAction::Reuse("id2".into()));
    assert_eq!(
        pool.ensure("id3", None),
        EnsureAction::Full(
            "codex app-server pool full (max=2); shutdown an instance before starting a new one".into()
        )
    );
    assert_eq!(pool.len(), 2);
    assert!(pool.get("id1").is_some());
    assert!(pool.get("id2").is_some());
    assert_eq!(pool.ensure("id1", Some("prod")), EnsureAction::Spawn { id: "id1".into(), shutdown_first: true });
    assert_eq!(pool.len(), 1);
    assert!(pool.get("id1").is_none());
    assert!(pool.get("id2").is_some());
    pool.register("id1", "/h1", Some("prod"));
    assert_eq!(pool.get("id1").unwrap().profile.as_deref(), Some("prod"));
    assert_eq!(pool.id_for_home("/h2"), Some("id2".to_string()));
    assert_eq!(pool.shutdown_by_codex_home("/h2"), Some("id2".to_string()));
    assert_eq!(pool.shutdown_by_codex_home("/h2"), None);
    assert!(!pool.shutdown("nope"));
    assert!(pool.shutdown("id1"));
    pool.register("a", "/a", None);
    pool.register("b", "/b", None);
    assert_eq!(pool.shutdown_all(), vec!["a".to_string(), "b".to_string()]);
    assert_eq!(pool.len(), 0);
}

#[test]
fn pool_of_capacity_zero_is_always_full() {
    let mut pool = CodexAppServerPool::new(0);
    assert!(matches!(pool.ensure("x", None), EnsureAction::Full(_)));
}

#[test]
fn json_is_found_within_a_message() {
    assert_eq!(extract_json_from_text("  {\"a\":1} \n").as_deref(), Some("{\"a\":1}"));
    assert_eq!(extract_json_from_text("result: {\"a\":{\"b\":2}} done").as_deref(), Some("{\"a\":{\"b\":2}}"));
    assert_eq!(extract_json_from_text("} {"), None);
    assert_eq!(extract_json_from_text("no braces"), None);
    assert_eq!(extract_json_from_text("{ only open"), None);
}

#[test]
fn prompt_is_wrapped_in_output_contract() {
    let w = wrapped_prompt("do it");
    assert_eq!(
        w,
        "# Output Contract\nReturn ONLY valid JSON matching schemas/worker-output.schema.json.\nRequired keys: status, summary. Optional: questions, nextActions, errors.\n\n\ndo it\n"
    );
    let p = turn_start_params("thr", "do it");
    assert_eq!(p.str_at("threadId").map(|s| s.as_str()), Some("thr"));
    let input = p.get("input").and_then(|v| v.as_array()).unwrap();
    assert_eq!(input.len(), 1);
    assert_eq!(input[0].str_at("type").map(|s| s.as_str()), Some("text"));
    assert_eq!(input[0].str_at("text").map(|s| s.as_str()), Some(w.as_str()));
}

#[test]
fn fork_needs_a_parent_thread() {
    assert_eq!(thread_plan(&None, &None), Ok(ThreadPlan::Start));
    assert_eq!(thread_plan(&Some("spawn".into()), &Some("p".into())), Ok(ThreadPlan::Start));
    assert_eq!(thread_plan(&Some("fork".into()), &Some("p".into())), Ok(ThreadPlan::Fork("p".into())));
    assert!(thread_plan(&Some("fork".into()), &None).is_err());
}

fn event(kind: &str, message: &str) -> agentmesh::rpc::CodexJsonRpcEvent {
    agentmesh::rpc::CodexJsonRpcEvent { kind: kind.to_string(), message: doc(message) }
}

#[test]
fn turn_remembers_last_agent_message_and_completes() {
    let mut st = TurnState::new();
    st = st.step(&event("notification", r#"{"method":"item/completed","params":{"item":{"type":"agentMessage","text":"first"}}}"#));
    st = st.step(&event("notification", r#"{"method":"item/completed","params":{"item":{"type":"reasoning","text":"ignored"}}}"#));
    st = st.step(&event("notification", r#"{"method":"item/completed","params":{"item":{"type":"agentMessage","text":"note {\"status\":\"success\",\"summary\":\"ok\"}"}}}"#));
    st = st.step(&event("response", r#"{"id":-3,"result":{}}"#));
    assert!(!st.is_over());
    st = st.step(&event("notification", r#"{"method":"turn/completed"}"#));
    assert!(st.is_over());
    assert_eq!(to_text(&final_artifact(&st)), r#"{"status":"success","summary":"ok"}"#);
}

#[test]
fn peer_request_blocks_the_turn() {
    let st = TurnState::new().step(&event("request", r#"{"id":4,"method":"execCommandApproval"}"#));
    assert!(st.is_over());
    assert_eq!(st.blocked_reason.as_deref(), Some("approval request: execCommandApproval"));
    let a = final_artifact(&st);
    assert_eq!(a.str_at("status").map(|s| s.as_str()), Some("blocked"));
    assert_eq!(a.str_at("summary").map(|s| s.as_str()), Some("approval request: execCommandApproval"));
    assert_eq!(a.get("questions").and_then(|v| v.as_array()).unwrap().len(), 1);
    let st = TurnState::new().step(&event("notification", r#"{"method":"error","params":{}}"#));
    assert_eq!(st.blocked_reason.as_deref(), Some("app-server error"));
}

#[test]
fn turn_without_json_message_fails() {
    let st = TurnState::new();
    let a = final_artifact(&st);
    assert_eq!(a.str_at("status").map(|s| s.as_str()), Some("failed"));
    assert_eq!(a.str_at("summary").map(|s| s.as_str()), Some("missing agentMessage output"));
    let st = st.step(&event("notification", r#"{"method":"item/completed","params":{"item":{"type":"agentMessage","text":"plain words"}}}"#));
    let a = final_artifact(&st);
    assert_eq!(a.str_at("summary").map(|s| s.as_str()), Some("agentMessage is not valid JSON"));
    assert_eq!(
        to_text(a.get("errors").unwrap()),
        r#"["Expected JSON worker output; got plain text."]"#
    );
}
