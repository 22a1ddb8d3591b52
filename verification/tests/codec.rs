use agentmesh::codec::{
    agent_state_from_name, decode_event, decode_task, encode_event, encode_task, event_line,
    milestone_state_from_name, parse_actions, parse_event_log, task_from_yaml, task_state_from_name,
    task_to_yaml,
};
use agentmesh::error::{OrchestratorError, TaskStoreError};
use agentmesh::json::{parse, parse_yaml, to_text, Json};
use agentmesh::task::{
    AgentInstance, AgentInstanceState, Gate, GateState, GateType, Milestone, MilestoneState,
    TaskConfig, TaskEvent, TaskFile, TaskState, TaskTopology, Timestamp,
};
use agentmesh::time::{format_rfc3339, format_rfc3339_zulu, parse_rfc3339};

fn sample() -> TaskFile {
    TaskFile {
        id: "task-0123456789abcdef0123456789abcdef".to_string(),
        title: "Title: with \"quotes\" and #hash".to_string(),
        description: "multi\nline\n".to_string(),
        topology: TaskTopology::Squad,
        state: TaskState::InputRequired,
        created_at: Timestamp { secs: 1_700_000_000, nanos: 123_456_789 },
        updated_at: Timestamp { secs: 1_700_000_100, nanos: 0 },
        milestones: vec![Milestone {
            id: "m1".to_string(),
            title: "first".to_string(),
            state: MilestoneState::Working,
            depends_on: vec!["m0".to_string(), "true".to_string()],
        }],
        roster: vec![
            AgentInstance {
                instance: "w1".to_string(),
                agent: "worker".to_string(),
                state: AgentInstanceState::Awaiting,
                assigned_milestone: Some("m1".to_string()),
                skills: vec!["rust".to_string()],
            },
            AgentInstance {
                instance: "w2".to_string(),
                agent: "123".to_string(),
                state: AgentInstanceState::Pending,
                assigned_milestone: None,
                skills: Vec::new(),
            },
        ],
        gates: vec![Gate {
            id: "gate-w1".to_string(),
            gate_type: GateType::HumanApproval,
            state: GateState::Blocked,
            reason: "which env?".to_string(),
            instructions_ref: Some("./shared/human-notes.md".to_string()),
            blocked_at: Some(Timestamp { secs: 1_700_000_050, nanos: 5_000_000 }),
            resolved_at: None,
            resolved_by: None,
        }],
        config: TaskConfig { max_concurrent_agents: 2, timeout_seconds: 4_000_000_000, auto_approve: true },
    }
}

#[test]
fn agent_instance_state_accepts_legacy_created() {
    let doc = parse_yaml("created").unwrap();
    let state = agent_state_from_name(doc.as_str().unwrap()).unwrap();
    assert_eq!(state, AgentInstanceState::Pending);
}

#[test]
fn milestone_state_accepts_legacy_in_progress() {
    let doc = parse_yaml("in_progress").unwrap();
    let state = milestone_state_from_name(doc.as_str().unwrap()).unwrap();
    assert_eq!(state, MilestoneState::Working);
}

#[test]
fn task_state_accepts_legacy_gate_blocked() {
    let doc = parse_yaml("gate.blocked").unwrap();
    let state = task_state_from_name(doc.as_str().unwrap()).unwrap();
    assert_eq!(state, TaskState::InputRequired);
}

#[test]
fn task_state_accepts_legacy_cancelled() {
    let doc = parse_yaml("cancelled").unwrap();
    let state = task_state_from_name(doc.as_str().unwrap()).unwrap();
    assert_eq!(state, TaskState::Canceled);
}

#[test]
fn task_survives_persist_and_reload() {
    let task = sample();
    let now = Timestamp { secs: 1, nanos: 1 };
    assert_eq!(decode_task(&encode_task(&task), now), Some(task.clone()));
    let yaml = task_to_yaml(&task);
    assert_eq!(task_from_yaml(&yaml, now), Ok(task.clone()));
    let json = to_text(&encode_task(&task));
    assert_eq!(decode_task(&parse(&json).unwrap(), now), Some(task));
}

#[test]
fn task_yaml_has_descriptor_fields_in_order() {
    let mut task = sample();
    task.milestones.clear();
    task.roster.clear();
    task.gates.clear();
    task.title = "t".to_string();
    task.description = String::new();
    let yaml = task_to_yaml(&task);
    assert_eq!(
        yaml,
        "id: task-0123456789abcdef0123456789abcdef\ntitle: t\ndescription: ''\ntopology: squad\nstate: input-required\ncreatedAt: 2023-11-14T22:13:20.123456789Z\nupdatedAt: 2023-11-14T22:15:00Z\nmilestones: []\nroster: []\ngates: []\nconfig:\n  maxConcurrentAgents: 2\n  timeoutSeconds: 4000000000\n  autoApprove: true\n"
    );
}

#[test]
fn descriptor_defaults_apply_to_missing_members() {
    let now = Timestamp { secs: 77, nanos: 7 };
    let task = task_from_yaml("id: t1\ntitle: hello\ntopology: swarm\nstate: created\n", now).unwrap();
    assert_eq!(task.description, "");
    assert_eq!(task.created_at, now);
    assert_eq!(task.updated_at, now);
    assert!(task.milestones.is_empty() && task.roster.is_empty() && task.gates.is_empty());
    assert_eq!(task.config, TaskConfig::default());
    let task = task_from_yaml(
        "id: t1\ntitle: hello\ntopology: swarm\nstate: cancelled\nextra: ignored\nroster:\n- instance: a\n  agent: w\n  state: created\ngates:\n- id: g\n  type: auto-check\n  state: open\nmilestones:\n- id: m\n  title: x\n  state: in_progress\n",
        now,
    )
    .unwrap();
    assert_eq!(task.state, TaskState::Canceled);
    assert_eq!(task.roster[0].state, AgentInstanceState::Pending);
    assert_eq!(task.roster[0].assigned_milestone, None);
    assert_eq!(task.gates[0].reason, "");
    assert_eq!(task.gates[0].gate_type, GateType::AutoCheck);
    assert_eq!(task.milestones[0].state, MilestoneState::Working);
}

#[test]
fn broken_descriptors_are_yaml_errors() {
    let now = Timestamp { secs: 0, nanos: 0 };
    for text in [
        "title: no id\ntopology: swarm\nstate: created\n",
        "id: t\ntitle: x\ntopology: ring\nstate: created\n",
        "id: t\ntitle: x\ntopology: swarm\nstate: paused\n",
        "id: t\ntitle: x\ntopology: swarm\nstate: created\ndescription: null\n",
        "id: t\ntitle: x\ntopology: swarm\nstate: created\ncreatedAt: yesterday\n",
        "id: t\ntitle: x\ntopology: swarm\nstate: created\nroster: [{instance: a}]\n",
        "id: t\ntitle: x\ntopology: swarm\nstate: created\nconfig: {maxConcurrentAgents: -1, timeoutSeconds: 1, autoApprove: false}\n",
        "id: t\ntitle: x\ntopology: swarm\nstate: created\nconfig: {maxConcurrentAgents: 1}\n",
        "- a\n- b\n",
        ": : :",
    ] {
        assert!(matches!(task_from_yaml(text, now), Err(TaskStoreError::Yaml(_))), "accepted {text:?}");
    }
}

fn event() -> TaskEvent {
    TaskEvent {
        ts: Timestamp { secs: 1_700_000_000, nanos: 1_000 },
        event_type: "agent.started".to_string(),
        task_id: "task-1".to_string(),
        agent_instance: Some("w1".to_string()),
        turn_id: None,
        payload: parse(r#"{"cwd":"/w","n":[1,2.5,null,true]}"#).unwrap(),
        by: Some("orchestrator".to_string()),
        path: None,
    }
}

#[test]
fn event_line_is_one_json_line() {
    let e = event();
    assert_eq!(
        event_line(&e),
        "{\"ts\":\"2023-11-14T22:13:20.000001Z\",\"type\":\"agent.started\",\"taskId\":\"task-1\",\"agentInstance\":\"w1\",\"turnId\":null,\"payload\":{\"cwd\":\"/w\",\"n\":[1,2.5,null,true]},\"by\":\"orchestrator\",\"path\":null}\n"
    );
    assert_eq!(decode_event(&encode_event(&e)), Some(e));
}

#[test]
fn event_log_is_read_line_by_line() {
    let e = event();
    let mut other = event();
    other.event_type = "gate.blocked".to_string();
    other.payload = Json::Null;
    let log = format!("{}\n   \n  {}", event_line(&e), event_line(&other));
    assert_eq!(parse_event_log(&log), Ok(vec![e.clone(), other]));
    assert_eq!(parse_event_log(""), Ok(Vec::new()));
    let minimal = r#"{"ts":"2024-01-01T00:00:00+02:00","type":"x","taskId":"t"}"#;
    let got = parse_event_log(minimal).unwrap();
    assert_eq!(got[0].ts, Timestamp { secs: 1_704_060_000, nanos: 0 });
    assert_eq!(got[0].payload, Json::Null);
    assert_eq!(got[0].agent_instance, None);
    let broken = format!("{}garbage\n", event_line(&e));
    assert!(matches!(parse_event_log(&broken), Err(TaskStoreError::Json(_))));
    assert!(matches!(parse_event_log(r#"{"type":"x","taskId":"t"}"#), Err(TaskStoreError::Json(_))));
    assert!(matches!(
        parse_event_log(r#"{"ts":"2024-01-01T00:00:00Z","type":"x","taskId":"t","by":7}"#),
        Err(TaskStoreError::Json(_))
    ));
}

#[test]
fn dates_are_written_and_read_by_chrono() {
    for ts in [
        Timestamp { secs: 0, nanos: 0 },
        Timestamp { secs: 1_700_000_000, nanos: 999_999_999 },
        Timestamp { secs: 1_700_000_000, nanos: 120_000_000 },
        Timestamp { secs: 951_782_400, nanos: 1 },
        Timestamp { secs: 253_402_300_799, nanos: 999_999_999 },
    ] {
        assert!(ts.is_valid());
        assert_eq!(parse_rfc3339(&format_rfc3339_zulu(ts)), Some(ts));
        assert_eq!(parse_rfc3339(&format_rfc3339(ts)), Some(ts));
    }
    assert_eq!(format_rfc3339(Timestamp { secs: 0, nanos: 0 }), "1970-01-01T00:00:00+00:00");
    assert_eq!(format_rfc3339_zulu(Timestamp { secs: 0, nanos: 0 }), "1970-01-01T00:00:00Z");
    assert_eq!(
        format_rfc3339(Timestamp { secs: 1_700_000_000, nanos: 120_000_000 }),
        "2023-11-14T22:13:20.120+00:00"
    );
    assert_eq!(parse_rfc3339("2023-11-14 22:13:20"), None);
    assert!(!Timestamp { secs: -1, nanos: 0 }.is_valid());
    assert!(!Timestamp { secs: 253_402_300_800, nanos: 0 }.is_valid());
    assert!(!Timestamp { secs: 0, nanos: 1_000_000_000 }.is_valid());
    assert!(Timestamp { secs: 5, nanos: 1 }.not_after(&Timestamp { secs: 5, nanos: 1 }));
    assert!(Timestamp { secs: 5, nanos: 1 }.not_after(&Timestamp { secs: 6, nanos: 0 }));
    assert!(!Timestamp { secs: 5, nanos: 2 }.not_after(&Timestamp { secs: 5, nanos: 1 }));
}

#[test]
fn plans_are_read_from_json() {
    let text = r#"{"sessionGoal":"ship","tasks":[{"taskId":"a","title":"A","agent":"worker","adapter":"codex-exec","prompt":"p","cwd":"sub","mode":null,"unknown":1},{"taskId":"b","agentInstance":"w2","title":"B","agent":"worker","adapter":"codex-app-server","prompt":"q","mode":"fork","forkedFromThreadId":"thr","outputSchemaPath":"/s.json"}]}"#;
    let plan = parse_actions(text).unwrap();
    assert_eq!(plan.session_goal, "ship");
    assert_eq!(plan.tasks.len(), 2);
    assert_eq!(plan.tasks[0].agent_instance, None);
    assert_eq!(plan.tasks[0].cwd.as_deref(), Some("sub"));
    assert_eq!(plan.tasks[0].mode, None);
    assert_eq!(plan.tasks[1].agent_instance.as_deref(), Some("w2"));
    assert_eq!(plan.tasks[1].mode.as_deref(), Some("fork"));
    assert_eq!(plan.tasks[1].forked_from_thread_id.as_deref(), Some("thr"));
    assert_eq!(plan.tasks[1].output_schema_path.as_deref(), Some("/s.json"));
    for bad in [
        "nope",
        r#"{"tasks":[]}"#,
        r#"{"sessionGoal":"g"}"#,
        r#"{"sessionGoal":"g","tasks":{}}"#,
        r#"{"sessionGoal":"g","tasks":[{"taskId":"a","title":"A","agent":"w","adapter":"x"}]}"#,
        r#"{"sessionGoal":"g","tasks":[{"taskId":"a","title":"A","agent":"w","adapter":"x","prompt":"p","cwd":5}]}"#,
    ] {
        assert!(matches!(parse_actions(bad), Err(OrchestratorError::Json(_))), "accepted {bad}");
    }
    assert_eq!(parse_actions(r#"{"sessionGoal":"g","tasks":[]}"#).unwrap().tasks.len(), 0);
}

#[test]
fn only_numbers_are_printed_as_reals() {
    assert_eq!(to_text(&Json::Real("1.5".to_string())), "1.5");
    assert_eq!(to_text(&Json::Real("-2e3".to_string())), "-2000.0");
    assert_eq!(to_text(&Json::Real("[1]".to_string())), "null");
    assert_eq!(to_text(&Json::Real("true".to_string())), "null");
    assert_eq!(to_text(&Json::Real("\"x\"".to_string())), "null");
    assert_eq!(to_text(&Json::Real(String::new())), "null");
    assert_eq!(to_text(&parse("[1.25, 1e400]").unwrap_or(Json::Null)), "null");
    assert_eq!(to_text(&parse("[1.25, 18446744073709551616]").unwrap()), "[1.25,1.8446744073709552e+19]");
}
