use agentmesh::activity::{
    extract_output_text, extract_text_list, item_key, looks_like_mcp_tool_name, normalize_reasoning_text,
    normalize_status, normalize_type_key, parse_exec_command_from_args, split_mcp_tool_name, value_is_missing,
};
use agentmesh::json::{parse, to_text, Json};
use agentmesh::merge::{
    augment_thread_resume_response, dedupe_adjacent_reasoning, is_rollout_file_of, merge_item_fields,
    merge_turn_items, resume_plan, should_update_status,
};
use agentmesh::patch::TargetFile;
use agentmesh::rollout::{align_turns, parse_rollout_activity_by_turn, FoundFile};

fn doc(text: &str) -> Json {
    parse(text).unwrap()
}

fn texts(items: &[Json]) -> Vec<String> {
    items.iter().map(to_text).collect()
}

const USER: &str = r#"{"type":"event_msg","payload":{"type":"user_message"}}"#;

#[test]
fn command_call_is_resolved_by_its_output() {
    let log = [
        r#"{"type":"response_item","payload":{"type":"message","role":"assistant"}}"#,
        USER,
        "",
        "not json",
        r#"{"type":"response_item","payload":{"type":"message","role":"user"}}"#,
        r#"{"type":"response_item","payload":{"type":"function_call","name":"exec_command","arguments":"{\"cmd\":\"ls\",\"workdir\":\"/w\"}","call_id":"c1"}}"#,
        r#"{"type":"response_item","payload":{"type":"function_call","name":"exec_command","arguments":"raw","call_id":""}}"#,
        r#"{"type":"response_item","payload":{"type":"message","role":"assistant"}}"#,
        r#"{"type":"response_item","payload":{"type":"function_call_output","call_id":"c1","output":{"output":"files","success":false}}}"#,
        r#"{"type":"response_item","payload":{"type":"function_call_output","call_id":"zz","output":"x"}}"#,
    ]
    .join("\n");
    let turns = parse_rollout_activity_by_turn(&log, 1, None, &Vec::new());
    assert_eq!(turns.len(), 1);
    assert_eq!(
        texts(&turns[0]),
        vec![
            r#"{"__rollout_placeholder":"userMessage"}"#.to_string(),
            r#"{"aggregatedOutput":"files","command":"ls","commandActions":[],"cwd":"/w","durationMs":null,"exitCode":null,"id":"c1","processId":null,"status":"failed","type":"commandExecution"}"#.to_string(),
            r#"{"__rollout_placeholder":"agentMessage"}"#.to_string(),
        ]
    );
}

#[test]
fn mcp_call_gets_wrapped_result() {
    let log = [
        USER,
        r#"{"type":"response_item","payload":{"type":"function_call","name":" srv . tool.x ","arguments":"{\"a\":1}","call_id":"m1"}}"#,
        r#"{"type":"response_item","payload":{"type":"function_call","name":"web.search","arguments":"{}","call_id":"m2"}}"#,
        r#"{"type":"response_item","payload":{"type":"function_call","name":"plain","arguments":"{}","call_id":"m3"}}"#,
        r#"{"type":"response_item","payload":{"type":"function_call_output","call_id":"m1","output":"done"}}"#,
    ]
    .join("\n");
    let turns = parse_rollout_activity_by_turn(&log, 1, None, &Vec::new());
    assert_eq!(
        texts(&turns[0]),
        vec![
            r#"{"arguments":{"a":1},"durationMs":null,"error":null,"id":"m1","result":{"content":[{"text":"done","type":"text"}],"structuredContent":null},"server":"srv","status":"completed","tool":"tool.x","type":"mcpToolCall"}"#.to_string()
        ]
    );
}

#[test]
fn reasoning_and_web_search_items() {
    let log = [
        USER,
        r#"{"type":"response_item","payload":{"type":"reasoning","summary":[{"text":"think"},"more",7],"content":[]}}"#,
        r#"{"type":"response_item","payload":{"type":"reasoning","summary":[],"content":null}}"#,
        r#"{"type":"response_item","payload":{"type":"reasoning","summary":["s"],"content":["c"]}}"#,
        r#"{"type":"response_item","payload":{"type":"web_search_call","action":{"query":"rust"}}}"#,
        r#"{"type":"response_item","payload":{"type":"web_search","query":"verus","id":"ws9"}}"#,
        r#"{"type":"response_item","payload":{"type":"web_search_call.done","query":""}}"#,
    ]
    .join("\n");
    let turns = parse_rollout_activity_by_turn(&log, 1, None, &Vec::new());
    assert_eq!(
        texts(&turns[0]),
        vec![
            r#"{"content":[],"id":"rollout-reasoning-0-1","summary":["think","more"],"type":"reasoning"}"#.to_string(),
            r#"{"__rollout_placeholder":"reasoning"}"#.to_string(),
            r#"{"__rollout_placeholder":"reasoning"}"#.to_string(),
            r#"{"id":"websearch-0-4","query":"rust","type":"webSearch"}"#.to_string(),
            r#"{"id":"ws9","query":"verus","type":"webSearch"}"#.to_string(),
        ]
    );
}

#[test]
fn apply_patch_becomes_file_change() {
    let input = "*** Begin Patch\\n*** Update File: a.txt\\n@@\\n ctx\\n-old\\n+new\\n*** Add File: n.txt\\n+l1\\n*** End Patch";
    let log = [
        USER.to_string(),
        format!(r#"{{"type":"response_item","payload":{{"type":"custom_tool_call","name":"apply_patch","call_id":"p1","status":"in_progress","input":"{input}"}}}}"#),
        r#"{"type":"response_item","payload":{"type":"custom_tool_call","name":"other","call_id":"p2","input":"x"}}"#.to_string(),
        r#"{"type":"response_item","payload":{"type":"custom_tool_call_output","call_id":"p1","output":"Patch FAILED to apply"}}"#.to_string(),
    ]
    .join("\n");
    let files = vec![FoundFile {
        path: "/cwd/a.txt".to_string(),
        file: TargetFile { is_file: true, len: 12, content: Some("top\nctx\nnew\n".to_string()) },
    }];
    let turns = parse_rollout_activity_by_turn(&log, 1, Some("/cwd"), &files);
    assert_eq!(turns[0].len(), 1);
    let item = &turns[0][0];
    assert_eq!(item.str_at("type").map(|s| s.as_str()), Some("fileChange"));
    assert_eq!(item.str_at("id").map(|s| s.as_str()), Some("p1"));
    assert_eq!(item.str_at("status").map(|s| s.as_str()), Some("failed"));
    let changes = item.get("changes").and_then(|v| v.as_array()).unwrap();
    assert_eq!(
        texts(changes),
        vec![
            r#"{"diff":"@@ -2,2 +2,2 @@\n ctx\n-old\n+new","kind":{"move_path":null,"type":"update"},"lineNumbersAvailable":true,"path":"a.txt"}"#.to_string(),
            r#"{"diff":"@@ -0,0 +1,1 @@\n+l1","kind":{"type":"add"},"lineNumbersAvailable":true,"path":"n.txt"}"#.to_string(),
        ]
    );
    let without = parse_rollout_activity_by_turn(&log, 1, Some("/cwd"), &Vec::new());
    let changes = without[0][0].get("changes").and_then(|v| v.as_array()).unwrap();
    assert_eq!(changes[0].get("lineNumbersAvailable").map(to_text).as_deref(), Some("false"));
    assert_eq!(
        changes[0].str_at("diff").map(|s| s.as_str()),
        Some("*** Update File: a.txt\n@@\n ctx\n-old\n+new")
    );
}

#[test]
fn rollback_drops_turns_and_their_pending_calls() {
    let call = r#"{"type":"response_item","payload":{"type":"function_call","name":"exec_command","arguments":"a","call_id":"c1"}}"#;
    let out = r#"{"type":"response_item","payload":{"type":"function_call_output","call_id":"c1","output":"late"}}"#;
    let log = [
        USER,
        r#"{"type":"response_item","payload":{"type":"message","role":"assistant"}}"#,
        USER,
        call,
        r#"{"type":"event_msg","payload":{"type":"thread_rolled_back","num_turns":1}}"#,
        out,
        USER,
    ]
    .join("\n");
    let turns = parse_rollout_activity_by_turn(&log, 2, None, &Vec::new());
    assert_eq!(turns.len(), 2);
    assert_eq!(texts(&turns[0]), vec![r#"{"__rollout_placeholder":"agentMessage"}"#.to_string()]);
    assert!(turns[1].is_empty());
    let all_gone = [USER, r#"{"type":"event_msg","payload":{"type":"thread_rolled_back","num_turns":9}}"#].join("\n");
    let turns = parse_rollout_activity_by_turn(&all_gone, 0, None, &Vec::new());
    assert_eq!(turns.len(), 1);
    assert!(turns[0].is_empty());
}

#[test]
fn trailing_turns_survive_alignment() {
    let turn = |n: i64| vec![Json::Int(n)];
    let three = vec![turn(1), turn(2), turn(3)];
    let kept = align_turns(three.clone(), 2);
    assert_eq!(kept.iter().map(|t| texts(t)).collect::<Vec<_>>(), vec![vec!["2".to_string()], vec!["3".to_string()]]);
    let padded = align_turns(vec![turn(1)], 3);
    assert_eq!(padded.len(), 3);
    assert!(padded[0].is_empty() && padded[1].is_empty());
    assert_eq!(texts(&padded[2]), vec!["1".to_string()]);
    assert_eq!(align_turns(three, 3).len(), 3);
    assert!(align_turns(Vec::new(), 0).is_empty());
}

#[test]
fn adjacent_duplicate_reasoning_keeps_the_longer() {
    let log = [
        USER,
        r#"{"type":"response_item","payload":{"type":"reasoning","summary":["alpha   beta gamma delta"]}}"#,
        r#"{"type":"response_item","payload":{"type":"reasoning","summary":["beta gamma"]}}"#,
    ]
    .join("\n");
    let activity = parse_rollout_activity_by_turn(&log, 1, None, &Vec::new());
    assert_eq!(activity[0].len(), 4);
    let merged = merge_turn_items(Vec::new(), &activity[0]);
    assert_eq!(
        texts(&merged),
        vec![r#"{"content":[],"id":"rollout-reasoning-0-1","summary":["alpha   beta gamma delta"],"type":"reasoning"}"#.to_string()]
    );
}

#[test]
fn dedupe_needs_eight_characters_and_adjacency() {
    let r = |t: &str| doc(&format!(r#"{{"type":"reasoning","summary":["{t}"]}}"#));
    let out = dedupe_adjacent_reasoning(vec![r("short"), r("short")]);
    assert_eq!(out.len(), 2);
    let out = dedupe_adjacent_reasoning(vec![r("long enough"), r("long enough text")]);
    assert_eq!(texts(&out), vec![to_text(&r("long enough text"))]);
    let out = dedupe_adjacent_reasoning(vec![r("long enough text"), r("long enough")]);
    assert_eq!(texts(&out), vec![to_text(&r("long enough text"))]);
    let out = dedupe_adjacent_reasoning(vec![r("long enough"), doc(r#"{"type":"x"}"#), r("long enough")]);
    assert_eq!(out.len(), 3);
    let out = dedupe_adjacent_reasoning(vec![r("long enough"), r("something else")]);
    assert_eq!(out.len(), 2);
    let out = dedupe_adjacent_reasoning(vec![r("aaaaaaaa"), r("aaaaaaaa"), r("aaaaaaaab")]);
    assert_eq!(texts(&out), vec![to_text(&r("aaaaaaaab"))]);
    // An item is held against the last one that was kept, and against no other.
    let out = dedupe_adjacent_reasoning(vec![r("abcdefghi"), r("jklmnopq"), r("abcdefghi jklmnopq")]);
    assert_eq!(texts(&out), vec![to_text(&r("abcdefghi")), to_text(&r("abcdefghi jklmnopq"))]);
}

#[test]
fn placeholders_pass_over_items_that_were_used() {
    let base = vec![
        doc(r#"{"type":"reasoning","id":"r1"}"#),
        doc(r#"{"type":"agentMessage","id":"a1"}"#),
        doc(r#"{"type":"reasoning","id":"r2"}"#),
        doc(r#"{"type":"reasoning","id":"r3"}"#),
    ];
    let rollout = vec![
        doc(r#"{"type":"reasoning","id":"r1","summary":["first thought"]}"#),
        doc(r#"{"__rollout_placeholder":"reasoning"}"#),
        doc(r#"{"type":"reasoning","id":"r3","summary":["third thought"]}"#),
        doc(r#"{"__rollout_placeholder":"reasoning"}"#),
        doc(r#"{"__rollout_placeholder":"agentMessage"}"#),
        doc(r#"{"__rollout_placeholder":"agentMessage"}"#),
    ];
    let out = merge_turn_items(base, &rollout);
    let ids: Vec<Option<&str>> = out.iter().map(|i| i.str_at("id").map(|s| s.as_str())).collect();
    assert_eq!(ids, vec![Some("r1"), Some("r2"), Some("r3"), Some("a1")]);
}

#[test]
fn placeholders_draw_from_base_in_order() {
    let base = vec![
        doc(r#"{"type":"userMessage","id":"u1"}"#),
        doc(r#"{"type":"agentMessage","id":"a1"}"#),
        doc(r#"{"type":"commandExecution","id":"c1","status":"inProgress"}"#),
        doc(r#"{"type":"agentMessage","id":"a2"}"#),
        doc(r#"{"type":"other","id":"o1"}"#),
    ];
    let rollout = vec![
        doc(r#"{"__rollout_placeholder":"agentMessage"}"#),
        doc(r#"{"type":"command_execution","id":"c1","status":"completed","aggregatedOutput":"out"}"#),
        doc(r#"{"__rollout_placeholder":"userMessage"}"#),
        doc(r#"{"__rollout_placeholder":"userMessage"}"#),
        doc(r#"{"__rollout_placeholder":"mystery"}"#),
        doc(r#"{"type":"webSearch","id":"w1"}"#),
        doc(r#"{"type":"commandExecution","id":"c1","status":"failed"}"#),
    ];
    let merged = merge_turn_items(base.clone(), &rollout);
    assert_eq!(
        texts(&merged),
        vec![
            r#"{"type":"agentMessage","id":"a1"}"#.to_string(),
            r#"{"type":"commandExecution","id":"c1","status":"completed","aggregatedOutput":"out"}"#.to_string(),
            r#"{"type":"userMessage","id":"u1"}"#.to_string(),
            r#"{"type":"webSearch","id":"w1"}"#.to_string(),
            r#"{"type":"commandExecution","id":"c1","status":"failed"}"#.to_string(),
            r#"{"type":"agentMessage","id":"a2"}"#.to_string(),
            r#"{"type":"other","id":"o1"}"#.to_string(),
        ]
    );
    assert_eq!(texts(&merge_turn_items(base.clone(), &Vec::new())), texts(&base));
}

#[test]
fn terminal_status_is_never_overridden() {
    let s = |t: &str| Json::string(t);
    assert!(should_update_status(None, Some(&s("completed"))));
    assert!(should_update_status(Some(&s("inProgress")), Some(&s("failed"))));
    assert!(!should_update_status(Some(&s("completed")), Some(&s("failed"))));
    assert!(!should_update_status(Some(&s("failed")), Some(&s("completed"))));
    assert!(!should_update_status(Some(&s("declined")), Some(&s("completed"))));
    assert!(should_update_status(Some(&s("odd")), Some(&s("completed"))));
    assert!(!should_update_status(Some(&s("odd")), Some(&s("inProgress"))));
    assert!(!should_update_status(None, None));
    assert!(!should_update_status(None, Some(&Json::Null)));
    assert!(should_update_status(Some(&Json::Null), Some(&s("x"))));
}

#[test]
fn missing_fields_are_filled_from_rollout() {
    let base = doc(r#"{"type":"commandExecution","id":"c","aggregatedOutput":"","exitCode":0,"status":"completed"}"#);
    let roll = doc(r#"{"type":"commandExecution","id":"c","aggregatedOutput":"out","exitCode":1,"durationMs":5,"status":"failed"}"#);
    assert_eq!(
        to_text(&merge_item_fields(&base, &roll)),
        r#"{"type":"commandExecution","id":"c","aggregatedOutput":"out","exitCode":0,"status":"completed","durationMs":5}"#
    );
    let base = doc(r#"{"type":"mcpToolCall","result":null,"error":[],"status":"inProgress"}"#);
    let roll = doc(r#"{"result":{"x":1},"error":"e","status":"completed"}"#);
    assert_eq!(
        to_text(&merge_item_fields(&base, &roll)),
        r#"{"type":"mcpToolCall","result":{"x":1},"error":"e","status":"completed"}"#
    );
    let base = doc(r#"{"type":"fileChange","changes":[{"path":"a","diff":""},{"path":"b","diff":"kept","lineNumbersAvailable":true},{"diff":"nopath"}]}"#);
    let roll = doc(r#"{"changes":[{"path":"b","diff":"new"},{"path":"a","diff":"filled","lineNumbersAvailable":false}],"status":"completed"}"#);
    assert_eq!(
        to_text(&merge_item_fields(&base, &roll)),
        r#"{"type":"fileChange","changes":[{"path":"a","diff":"filled","lineNumbersAvailable":false},{"path":"b","diff":"kept","lineNumbersAvailable":true},{"diff":"nopath"}],"status":"completed"}"#
    );
    let base = doc(r#"{"type":"fileChange","changes":[]}"#);
    let roll = doc(r#"{"changes":[{"path":"z"}]}"#);
    assert_eq!(to_text(&merge_item_fields(&base, &roll)), r#"{"type":"fileChange","changes":[{"path":"z"}]}"#);
    let base = doc(r#"{"type":"note","x":null}"#);
    assert_eq!(to_text(&merge_item_fields(&base, &roll)), r#"{"type":"note","x":null}"#);
    assert_eq!(to_text(&merge_item_fields(&doc("[1]"), &roll)), "[1]");
}

#[test]
fn resume_response_is_augmented_turn_by_turn() {
    let res = doc(r#"{"cwd":"/w","thread":{"path":"/r.jsonl","cwd":"/t","turns":[{"id":"t1","items":[{"type":"agentMessage","id":"a1"}]},{"id":"t2"},{"id":"t3","items":[]}]}}"#);
    let plan = resume_plan(&res);
    assert_eq!(plan.turn_count, 3);
    assert_eq!(plan.rollout_path.as_deref(), Some("/r.jsonl"));
    assert_eq!(plan.cwd.as_deref(), Some("/w"));
    let activity = vec![
        vec![doc(r#"{"type":"webSearch","id":"w"}"#), doc(r#"{"__rollout_placeholder":"agentMessage"}"#)],
        vec![doc(r#"{"type":"webSearch","id":"x"}"#)],
    ];
    let out = augment_thread_resume_response(res, &activity);
    assert_eq!(
        to_text(&out),
        r#"{"cwd":"/w","thread":{"path":"/r.jsonl","cwd":"/t","turns":[{"id":"t1","items":[{"type":"webSearch","id":"w"},{"type":"agentMessage","id":"a1"}]},{"id":"t2"},{"id":"t3","items":[]}]}}"#
    );
    let plain = doc(r#"{"thread":{"cwd":"/t"}}"#);
    let plan = resume_plan(&plain);
    assert_eq!(plan.turn_count, 0);
    assert_eq!(plan.cwd.as_deref(), Some("/t"));
    assert_eq!(plan.rollout_path, None);
    assert_eq!(to_text(&augment_thread_resume_response(plain, &activity)), r#"{"thread":{"cwd":"/t"}}"#);
    assert!(is_rollout_file_of("rollout-2024-01-01T00-00-00-abc.jsonl", "abc"));
    assert!(!is_rollout_file_of("rollout-abc.json", "abc"));
    assert!(!is_rollout_file_of("rollout-xyz.jsonl", "abc"));
}

#[test]
fn small_readers() {
    assert_eq!(normalize_status("in_progress"), "inProgress");
    assert_eq!(normalize_status("inProgress"), "inProgress");
    assert_eq!(normalize_status("failed"), "failed");
    assert_eq!(normalize_status("declined"), "declined");
    assert_eq!(normalize_status("completed"), "completed");
    assert_eq!(normalize_status("whatever"), "completed");
    assert!(looks_like_mcp_tool_name("server.tool"));
    assert!(!looks_like_mcp_tool_name("tool"));
    assert!(!looks_like_mcp_tool_name("container.exec"));
    assert!(!looks_like_mcp_tool_name("web.run"));
    assert!(!looks_like_mcp_tool_name("browser.open"));
    assert_eq!(split_mcp_tool_name("a.b.c"), Some(("a".to_string(), "b.c".to_string())));
    assert_eq!(split_mcp_tool_name(" . x"), None);
    assert_eq!(split_mcp_tool_name("x."), None);
    assert_eq!(split_mcp_tool_name("x"), None);
    assert_eq!(normalize_type_key("command_Execution-2!\u{e9}"), "commandexecution2");
    assert_eq!(normalize_reasoning_text("  a \n\t b  "), "a b");
    assert_eq!(item_key(&doc(r#"{"type":"MCP-tool","id":"7"}"#)).as_deref(), Some("mcptool:7"));
    assert_eq!(item_key(&doc(r#"{"type":"x","id":7}"#)), None);
    assert_eq!(
        parse_exec_command_from_args(r#"{"cmd":"ls","cwd":"/c"}"#),
        ("ls".to_string(), Some("/c".to_string()))
    );
    assert_eq!(
        parse_exec_command_from_args(r#"{"cmd":"ls","workdir":7,"cwd":"/c"}"#),
        ("ls".to_string(), None)
    );
    assert_eq!(parse_exec_command_from_args("ls -la"), ("ls -la".to_string(), None));
    assert_eq!(parse_exec_command_from_args(r#"{"command":"x"}"#), (r#"{"command":"x"}"#.to_string(), None));
    assert_eq!(extract_output_text(&doc(r#""plain""#)), "plain");
    assert_eq!(extract_output_text(&doc(r#"{"content":"c","output":"o"}"#)), "c");
    assert_eq!(extract_output_text(&doc(r#"{"output":"o","stdout":"s"}"#)), "o");
    assert_eq!(extract_output_text(&doc(r#"{"stdout":"s","stderr":"e"}"#)), "se");
    assert_eq!(extract_output_text(&doc(r#"{"stderr":"e"}"#)), "e");
    assert_eq!(extract_output_text(&doc("{}")), "");
    assert_eq!(extract_output_text(&doc("7")), "");
    assert_eq!(extract_text_list(Some(&doc(r#"["a",{"text":"b"},{"t":1},3]"#))), vec!["a".to_string(), "b".to_string()]);
    assert_eq!(extract_text_list(Some(&doc(r#"{"text":"only"}"#))), vec!["only".to_string()]);
    assert!(extract_text_list(Some(&doc("null"))).is_empty());
    assert!(extract_text_list(None).is_empty());
    assert!(value_is_missing(None));
    assert!(value_is_missing(Some(&doc("null"))));
    assert!(value_is_missing(Some(&doc("\"\""))));
    assert!(value_is_missing(Some(&doc("[]"))));
    assert!(!value_is_missing(Some(&doc("0"))));
    assert!(!value_is_missing(Some(&doc("false"))));
    assert!(!value_is_missing(Some(&doc("{}"))));
}
