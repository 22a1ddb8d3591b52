use agentmesh::error::OrchestratorError;
use agentmesh::join::{
    escape_yaml_string, evidence_entry, evidence_id_for_agent_instance, EvidenceSource,
    JoinedWorkerSummary,
};
use agentmesh::json::{parse, Json};
use agentmesh::orchestrator::Orchestrator;
use agentmesh::task::{
    AgentInstance, AgentInstanceState, TaskConfig, TaskFile, TaskState, TaskTopology, Timestamp,
};

fn agent(instance: &str) -> AgentInstance {
    AgentInstance {
        instance: instance.to_string(),
        agent: "worker".to_string(),
        state: AgentInstanceState::Completed,
        assigned_milestone: None,
        skills: Vec::new(),
    }
}

fn task(roster: Vec<AgentInstance>) -> TaskFile {
    TaskFile {
        id: "task-1".to_string(),
        title: "join \"test\"".to_string(),
        description: String::new(),
        topology: TaskTopology::Swarm,
        state: TaskState::Working,
        created_at: Timestamp { secs: 1, nanos: 0 },
        updated_at: Timestamp { secs: 1, nanos: 0 },
        milestones: Vec::new(),
        roster,
        gates: Vec::new(),
        config: TaskConfig::default(),
    }
}

fn text_at<'a>(doc: &'a Json, key: &str) -> Option<&'a str> {
    doc.get(key).and_then(|v| v.as_str()).map(|s| s.as_str())
}

#[test]
fn join_output_cites_every_worker() {
    let o = Orchestrator::new("/ws".to_string());
    let t = task(vec![agent("w1"), agent("w2")]);
    let finals = vec![
        Some(r#"{"status":"success","summary":"ok one"}"#.to_string()),
        Some(r#"{"status":"failed","summary":"boom"}"#.to_string()),
    ];
    let report = o.task_join(&t, &finals, Timestamp { secs: 0, nanos: 0 }).unwrap();
    assert!(report.markdown.contains("ok one"));
    assert!(report.markdown.contains("boom"));
    assert!(report.markdown.contains("evidence:worker-w1"));
    assert!(report.markdown.contains("evidence:worker-w2"));
    let index = parse(&report.evidence_index).unwrap();
    let entries = index.as_array().unwrap();
    assert_eq!(entries.len(), 2);
    for e in entries {
        assert_eq!(text_at(e, "kind"), Some("runtime-event-range"));
    }
    assert_eq!(
        report.response.joined_summary_md,
        "/ws/.coco/tasks/task-1/shared/reports/joined-summary.md"
    );
    assert_eq!(
        report.response.joined_summary_json,
        "/ws/.coco/tasks/task-1/shared/reports/joined-summary.json"
    );
}

#[test]
fn join_includes_all_worker_fields() {
    let o = Orchestrator::new("/ws".to_string());
    let t = task(vec![agent("w1"), agent("w2")]);
    let finals = vec![
        Some(
            r#"{"status":"success","summary":"summary-one","questions":["question-one"],"nextActions":["action-one"]}"#
                .to_string(),
        ),
        Some(
            r#"{"status":"blocked","summary":"summary-two","questions":["question-two"],"nextActions":["action-two"]}"#
                .to_string(),
        ),
    ];
    let report = o.task_join(&t, &finals, Timestamp { secs: 1_700_000_000, nanos: 0 }).unwrap();
    let md = &report.markdown;
    for needle in [
        "summary-one",
        "question-one",
        "action-one",
        "summary-two",
        "question-two",
        "action-two",
        "evidence:worker-w1",
        "evidence:worker-w2",
    ] {
        assert!(md.contains(needle), "markdown lacks {needle}");
    }
    for needle in ["summary-one", "question-one", "action-one", "summary-two", "question-two", "action-two"] {
        assert!(report.json.contains(needle), "json lacks {needle}");
    }
    let index = parse(&report.evidence_index).unwrap();
    let entries = index.as_array().unwrap();
    assert_eq!(entries.len(), 2);
    let w1 = entries.iter().find(|v| text_at(v, "id") == Some("worker-w1")).unwrap();
    assert_eq!(text_at(w1, "kind"), Some("runtime-event-range"));
    let sources = w1.get("sources").and_then(|v| v.as_array()).unwrap();
    assert_eq!(text_at(&sources[0], "type"), Some("runtimeEventRange"));
    assert_eq!(text_at(&sources[0], "eventsRef"), Some("./agents/w1/runtime/events.jsonl"));
}

#[test]
fn joined_markdown_is_exact() {
    let o = Orchestrator::new("/ws".to_string());
    let t = task(vec![agent("w_1")]);
    let finals = vec![Some(
        r#"{"status":"blocked","summary":" s ","questions":[" q1 ","q2"],"nextActions":["n"]}"#.to_string(),
    )];
    let report = o.task_join(&t, &finals, Timestamp { secs: 0, nanos: 0 }).unwrap();
    let at = "1970-01-01T00:00:00+00:00";
    let want = format!(
        "---\ntitle: \"Joined Summary: join \\\"test\\\"\"\npurpose: \"\u{6c47}\u{603b}\u{591a}\u{4e2a} subagent \u{7684}\u{6700}\u{7ec8}\u{8f93}\u{51fa}\u{4e0e}\u{963b}\u{585e}\u{70b9}\"\ntags: [\"joined-summary\", \"subagents\"]\ntask_id: \"task-1\"\ngenerated_at: \"{at}\"\n---\n\n# Joined Summary: join \"test\"\n\n- task: `task-1`\n- generatedAt: `{at}`\n\n## Workers\n\n### w_1 (worker)\n\n- status: `blocked`\n- evidence: evidence:worker-w-1\n- summary: s\n- questions:\n  - q1\n  - q2\n- nextActions:\n  - n\n\n"
    );
    assert_eq!(report.markdown, want);
    let json = parse(&report.json).unwrap();
    assert_eq!(text_at(&json, "taskId"), Some("task-1"));
    assert_eq!(text_at(&json, "generatedAt"), Some(at));
    let workers = json.get("workers").and_then(|v| v.as_array()).unwrap();
    assert_eq!(text_at(&workers[0], "agentInstance"), Some("w_1"));
    assert_eq!(text_at(&workers[0], "status"), Some("blocked"));
}

#[test]
fn missing_final_output_is_reported_as_missing() {
    let o = Orchestrator::new("/ws".to_string());
    let t = task(vec![agent("w1"), agent("w2")]);
    let report = o.task_join(&t, &vec![None], Timestamp { secs: 0, nanos: 0 }).unwrap();
    assert_eq!(report.workers.len(), 2);
    for w in &report.workers {
        assert_eq!(w.status, "missing");
        assert_eq!(w.summary, "final output is missing");
    }
    let index = parse(&report.evidence_index).unwrap();
    assert_eq!(index.as_array().unwrap().len(), 2);
}

#[test]
fn broken_final_output_fails_the_join() {
    let o = Orchestrator::new("/ws".to_string());
    let t = task(vec![agent("w1")]);
    let err = o.task_join(&t, &vec![Some("{".to_string())], Timestamp { secs: 0, nanos: 0 }).unwrap_err();
    assert!(matches!(err, OrchestratorError::Json(_)));
}

#[test]
fn evidence_entry_points_at_recordings() {
    let w = JoinedWorkerSummary {
        agent_instance: "a_b".to_string(),
        agent: "worker".to_string(),
        status: "success".to_string(),
        summary: "  done  ".to_string(),
        questions: Vec::new(),
        next_actions: Vec::new(),
    };
    let e = evidence_entry(&w, "T");
    assert_eq!(e.id, "worker-a-b");
    assert_eq!(e.kind, "runtime-event-range");
    assert_eq!(e.title, "Worker a_b runtime");
    assert_eq!(e.summary, "[success] done");
    assert_eq!(e.created_at, "T");
    assert_eq!(
        e.sources,
        vec![EvidenceSource::RuntimeEventRange {
            events_ref: "./agents/a_b/runtime/events.jsonl".to_string(),
            start_line: None,
            end_line: None
        }]
    );
    assert_eq!(
        e.artifact_refs,
        vec!["./agents/a_b/artifacts/final.json".to_string(), "./agents/a_b/runtime/events.jsonl".to_string()]
    );
    let mut blank = w.clone();
    blank.summary = "  ".to_string();
    assert_eq!(evidence_entry(&blank, "T").summary, "[success]");
    assert_eq!(evidence_id_for_agent_instance("x__y-z"), "worker-x--y-z");
    assert_eq!(escape_yaml_string("a\"b\"c"), "a\\\"b\\\"c");
}
