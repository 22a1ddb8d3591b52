use agentmesh::json::{parse, to_text};
use agentmesh::notification::{enrich_file_change_notification, notification_targets};
use agentmesh::patch::TargetFile;
use agentmesh::prompts::{parse_prompt_frontmatter, strip_char_text};
use agentmesh::rollout::{patch_targets, FoundFile};
use agentmesh::store::TaskStore;
use agentmesh::threads::{
    codex_thread_archive_guard_dir, codex_thread_archive_guard_path, codex_thread_sidecar_dir,
    codex_thread_sidecar_path, interaction_count, rollout_date_parts_from_filename,
    rollout_thread_id_from_filename, shared_category_dir, task_agents_dir, task_root_dir,
    task_shared_dir, validate_artifact_rel_path, validate_task_rel_path,
};
use agentmesh::title::collapse_whitespace_to_single_spaces;

const THREAD: &str = "0199a213-81c0-7800-8aa1-bbab2a035a53";

#[test]
fn interactions_are_messages_and_their_answers() {
    let log = [
        r#"{"type":"session_meta","payload":{"type":"user_message"}}"#,
        r#"{"type":"event_msg","payload":{"type":"user_message"}}"#,
        r#"{"type":"event_msg","payload":{"type":"agent_reasoning"}}"#,
        r#"{"type":"event_msg","payload":{"type":"agent_message"}}"#,
        r#"{"type":"event_msg","payload":{"type":"turn_complete"}}"#,
        r#"{"type":"event_msg","payload":{"type":"user_message"}}"#,
        r#"{"type":"event_msg","payload":{"type":"user_message"}}"#,
        r#"{"type":"event_msg","payload":{"type":"token_count"}}"#,
        r#"{"type":"response_item","payload":{"type":"message"}}"#,
        r#"{"type":"response_item","payload":{"type":"message"}}"#,
        r#"not json "event_msg""#,
        r#"{"type":"event_msg"}"#,
        r#"{"type":"event_msg","payload":{"type":"user_message"}}"#,
    ]
    .join("\n");
    assert_eq!(interaction_count(&log), 7);
    assert_eq!(interaction_count(""), 0);
    assert_eq!(interaction_count(r#"{"type":"event_msg","payload":{"type":"error"}}"#), 0);
    assert_eq!(
        interaction_count("{\"type\":\"event_msg\",\"payload\":{\"type\":\"user_message\"}}\r\n{\"type\":\"event_msg\",\"payload\":{\"type\":\"error\"}}\r\n"),
        2
    );
}

#[test]
fn rollout_file_names_tell_date_and_thread() {
    let name = format!("rollout-2025-09-30T12-34-56-{THREAD}.jsonl");
    assert_eq!(rollout_thread_id_from_filename(&name).as_deref(), Some(THREAD));
    assert_eq!(
        rollout_date_parts_from_filename(&name),
        Some(("2025".to_string(), "09".to_string(), "30".to_string()))
    );
    assert_eq!(rollout_thread_id_from_filename("rollout-short.jsonl"), None);
    assert_eq!(rollout_thread_id_from_filename(&format!("{THREAD}.jsonl")), None);
    assert_eq!(rollout_thread_id_from_filename(&format!("rollout-{THREAD}.json")), None);
    assert_eq!(rollout_thread_id_from_filename(&format!("rollout-{THREAD}.jsonl")).as_deref(), Some(THREAD));
    assert_eq!(rollout_thread_id_from_filename("rollout-.jsonl"), None);
    assert_eq!(rollout_thread_id_from_filename("rollout-.json"), None);
    assert_eq!(rollout_date_parts_from_filename("rollout-2025-09-30.jsonl"), None);
    assert_eq!(rollout_date_parts_from_filename("rollout-2025-9-30T1.jsonl"), None);
    assert_eq!(rollout_date_parts_from_filename("rollout-2025-09-30-01T1.jsonl"), None);
    assert_eq!(rollout_date_parts_from_filename("rollout-2025-09T1.jsonl"), None);
    assert_eq!(
        rollout_date_parts_from_filename("rollout-abcd-ef-ghT.jsonl"),
        Some(("abcd".to_string(), "ef".to_string(), "gh".to_string()))
    );
}

#[test]
fn notes_on_threads_lie_below_the_workspace() {
    assert_eq!(codex_thread_sidecar_path("/ws", "thr_1"), "/ws/.agentmesh/codex/threads/thr_1.json");
    assert_eq!(codex_thread_sidecar_dir("/ws"), "/ws/.agentmesh/codex/threads");
    assert_eq!(codex_thread_archive_guard_dir("/ws"), "/ws/.agentmesh/codex/archive_guards");
    let store = TaskStore::new("/ws".to_string());
    assert_eq!(task_root_dir(&store, "t1"), "/ws/.coco/tasks/t1");
    assert_eq!(task_agents_dir(&store, "t1"), "/ws/.coco/tasks/t1/agents");
    assert_eq!(task_shared_dir(&store, "t1"), "/ws/.coco/tasks/t1/shared");
    assert_eq!(collapse_whitespace_to_single_spaces("  a \t\n b\u{3000}c  "), "a b c");
    assert_eq!(collapse_whitespace_to_single_spaces(" \n"), "");
    assert_eq!(
        codex_thread_archive_guard_path("/ws/", "thr_1"),
        "/ws/.agentmesh/codex/archive_guards/thr_1.json"
    );
}

#[test]
fn relative_paths_must_stay_inside() {
    assert_eq!(validate_artifact_rel_path("reports/a.md"), Ok("reports/a.md".to_string()));
    assert_eq!(validate_artifact_rel_path("./a/./b"), Ok("./a/./b".to_string()));
    assert_eq!(validate_artifact_rel_path("a/..b/c.."), Ok("a/..b/c..".to_string()));
    assert_eq!(validate_artifact_rel_path("  "), Err("artifact path cannot be empty".to_string()));
    assert_eq!(validate_artifact_rel_path(""), Err("artifact path cannot be empty".to_string()));
    assert_eq!(validate_task_rel_path("\t"), Err("path cannot be empty".to_string()));
    assert_eq!(validate_task_rel_path("/etc/passwd"), Err("absolute paths are not allowed".to_string()));
    assert_eq!(validate_task_rel_path("a/../b"), Err("path traversal is not allowed".to_string()));
    assert_eq!(validate_task_rel_path(".."), Err("path traversal is not allowed".to_string()));
    assert_eq!(validate_task_rel_path("a/b/.."), Err("path traversal is not allowed".to_string()));
    assert_eq!(validate_task_rel_path("shared/x.md"), Ok("shared/x.md".to_string()));
}

#[test]
fn shared_categories_have_their_directories() {
    let store = TaskStore::new("/ws".to_string());
    assert_eq!(
        shared_category_dir(&store, "t1", "reports"),
        Ok("/ws/.coco/tasks/t1/shared/reports".to_string())
    );
    assert_eq!(
        shared_category_dir(&store, "t1", "decisions"),
        Ok("/ws/.coco/tasks/t1/shared/decisions".to_string())
    );
    assert_eq!(
        shared_category_dir(&store, "t1", "contracts"),
        Ok("/ws/.coco/tasks/t1/shared/contracts".to_string())
    );
    assert_eq!(shared_category_dir(&store, "t1", "evidence"), Err("invalid category: evidence".to_string()));
    assert_eq!(shared_category_dir(&store, "t 1", "reports"), Err("invalid task_id: t 1".to_string()));
    assert_eq!(shared_category_dir(&store, "../x", "nope"), Err("invalid task_id: ../x".to_string()));
}

#[test]
fn the_head_of_a_prompt_is_read() {
    assert_eq!(
        parse_prompt_frontmatter("---\ndescription: \"Review a change\"\nargument-hint: '<pr> [focus]'\n---\nbody"),
        (Some("Review a change".to_string()), Some("<pr> [focus]".to_string()))
    );
    assert_eq!(
        parse_prompt_frontmatter("\n\n  ---\r\n  description:   plain  \r\nother: x\r\ndescription: second\r\n---"),
        (Some("second".to_string()), None)
    );
    assert_eq!(parse_prompt_frontmatter("---\nargument-hint:\n---\n"), (None, Some(String::new())));
    assert_eq!(
        parse_prompt_frontmatter("---\ndescription: \"\"'it's'\"\n---\n"),
        (Some("it's".to_string()), None)
    );
    assert_eq!(parse_prompt_frontmatter("description: x\n---\n"), (None, None));
    assert_eq!(parse_prompt_frontmatter("---\ndescription: x\n"), (None, None));
    assert_eq!(parse_prompt_frontmatter("---\ndescription: x ---"), (None, None));
    assert_eq!(parse_prompt_frontmatter(""), (None, None));
    assert_eq!(parse_prompt_frontmatter("---\n---\ndescription: late\n---"), (None, None));
    let chars = |s: &str| s.chars().collect::<Vec<char>>();
    assert_eq!(strip_char_text(&chars("\"\"a\"b\""), '"'), chars("a\"b"));
    assert_eq!(strip_char_text(&chars("\"\"\""), '"'), chars(""));
    assert_eq!(strip_char_text(&chars("ab"), '"'), chars("ab"));
}

fn notification(method: &str, item_type: &str) -> String {
    format!(
        r#"{{"method":"{method}","params":{{"threadId":"t","item":{{"type":"{item_type}","id":"i1","changes":[{{"path":"n.txt","kind":{{"type":"add"}},"diff":"+l1\n+l2"}},{{"path":"a.txt","kind":{{"type":"update"}},"diff":"@@\n ctx\n-old\n+new"}},{{"path":"b.txt","kind":"update"}},7]}}}}}}"#
    )
}

#[test]
fn notifications_of_file_changes_get_line_numbers() {
    let message = parse(&notification("item/completed", "fileChange")).unwrap();
    assert_eq!(notification_targets(&message, "/cwd"), vec!["/cwd/a.txt"]);
    let files = vec![FoundFile {
        path: "/cwd/a.txt".to_string(),
        file: TargetFile { is_file: true, len: 12, content: Some("top\nctx\nnew\n".to_string()) },
    }];
    let out = enrich_file_change_notification(message.clone(), "/cwd", &files);
    assert_eq!(
        to_text(&out),
        r#"{"method":"item/completed","params":{"threadId":"t","item":{"type":"fileChange","id":"i1","changes":[{"path":"n.txt","kind":{"type":"add"},"diff":"@@ -0,0 +1,2 @@\n+l1\n+l2","lineNumbersAvailable":true},{"path":"a.txt","kind":{"type":"update"},"diff":"@@ -2,2 +2,2 @@\n ctx\n-old\n+new","lineNumbersAvailable":true},{"path":"b.txt","kind":"update"},7]}}}"#
    );
    let without = enrich_file_change_notification(message.clone(), "/cwd", &Vec::new());
    let changes = without.get("params").unwrap().get("item").unwrap().get("changes").unwrap();
    let second = &changes.as_array().unwrap()[1];
    assert_eq!(second.str_at("diff").map(|s| s.as_str()), Some("@@\n ctx\n-old\n+new"));
    assert_eq!(second.get("lineNumbersAvailable").map(to_text).as_deref(), Some("false"));
}

#[test]
fn other_notifications_stay_as_they_are() {
    for (method, item_type) in
        [("item/updated", "fileChange"), ("item/started", "agentMessage"), ("turn/completed", "fileChange")]
    {
        let message = parse(&notification(method, item_type)).unwrap();
        assert_eq!(notification_targets(&message, "/cwd"), Vec::<String>::new());
        assert_eq!(enrich_file_change_notification(message.clone(), "/cwd", &Vec::new()), message);
    }
    let started = parse(&notification("item/started", "fileChange")).unwrap();
    assert_ne!(enrich_file_change_notification(started.clone(), "/cwd", &Vec::new()), started);
    let bare = parse(r#"{"method":"item/started","params":{"item":{"type":"fileChange"}}}"#).unwrap();
    assert_eq!(enrich_file_change_notification(bare.clone(), "/cwd", &Vec::new()), bare);
    let no_params = parse(r#"{"method":"item/started"}"#).unwrap();
    assert_eq!(enrich_file_change_notification(no_params.clone(), "/cwd", &Vec::new()), no_params);
}

#[test]
fn a_log_names_the_files_of_its_updates() {
    let input = "*** Begin Patch\\n*** Update File: a.txt\\n@@\\n ctx\\n-old\\n+new\\n*** Add File: n.txt\\n+l1\\n*** Update File: /abs/b.txt\\n@@\\n-x\\n+y\\n*** End Patch";
    let log = [
        r#"{"type":"event_msg","payload":{"type":"user_message","message":"go"}}"#.to_string(),
        format!(r#"{{"type":"response_item","payload":{{"type":"custom_tool_call","name":"apply_patch","call_id":"p1","input":"{input}"}}}}"#),
        String::new(),
        "not json".to_string(),
        format!(r#"{{"type":"response_item","payload":{{"type":"custom_tool_call","name":"shell","call_id":"p2","input":"{input}"}}}}"#),
        format!(r#"{{"type":"response_item","payload":{{"type":"custom_tool_call","name":"apply_patch","call_id":"","input":"{input}"}}}}"#),
        format!(r#"{{"type":"response_item","payload":{{"type":"custom_tool_call","name":"apply_patch","call_id":"p3","input":"{input}"}}}}"#),
    ]
    .join("\n");
    assert_eq!(
        patch_targets(&log, Some("/cwd")),
        vec!["/cwd/a.txt", "/abs/b.txt", "/cwd/a.txt", "/abs/b.txt"]
    );
    assert_eq!(patch_targets(&log, None), vec!["/abs/b.txt", "/abs/b.txt"]);
    assert_eq!(patch_targets("", Some("/cwd")), Vec::<String>::new());
}
