use agentmesh::error::{
    orchestrator_error_of, CodexAppServerError, CodexExecError, OrchestratorError, TaskStoreError,
};
use agentmesh::json::{to_text, Json};
use agentmesh::layout::{agent_layout, layout_of_dir, shared_layout};
use agentmesh::reconcile::{SubagentInfo, SubagentStatus};
use agentmesh::report::{
    cancel_json, cancel_row, created_json, event_row, events_json, spawn_json, spawn_row,
    subagent_row, subagents_json, task_row, task_summary, tasks_json, wait_json, wait_row,
};
use agentmesh::supervisor::{SubagentSpawnResponse, SubagentWaitAnyResult};
use agentmesh::task::{
    AgentInstance, AgentInstanceState, CreateTaskResponse, TaskConfig, TaskEvent, TaskFile,
    TaskState, TaskTopology, Timestamp,
};

fn sample_task(description: &str) -> TaskFile {
    TaskFile {
        id: "task-1".to_string(),
        title: "Ship it".to_string(),
        description: description.to_string(),
        topology: TaskTopology::Squad,
        state: TaskState::InputRequired,
        created_at: Timestamp { secs: 1_700_000_000, nanos: 0 },
        updated_at: Timestamp { secs: 1_700_000_060, nanos: 0 },
        milestones: Vec::new(),
        roster: vec![AgentInstance {
            instance: "w1".to_string(),
            agent: "coder".to_string(),
            state: AgentInstanceState::Active,
            assigned_milestone: None,
            skills: Vec::new(),
        }],
        gates: Vec::new(),
        config: TaskConfig { max_concurrent_agents: 3, timeout_seconds: 3600, auto_approve: false },
    }
}

fn sample_event(by: Option<&str>) -> TaskEvent {
    TaskEvent {
        ts: Timestamp { secs: 1_700_000_000, nanos: 0 },
        event_type: "agent.started".to_string(),
        task_id: "task-1".to_string(),
        agent_instance: Some("w1".to_string()),
        turn_id: None,
        payload: Json::object(),
        by: by.map(|b| b.to_string()),
        path: None,
    }
}

#[test]
fn task_rows_hold_id_state_and_title() {
    assert_eq!(task_row(&sample_task("")), "task-1\tinput-required\tShip it");
}

#[test]
fn task_summary_skips_a_blank_description() {
    assert_eq!(
        task_summary(&sample_task(" \n")),
        vec![
            "id: task-1",
            "title: Ship it",
            "topology: squad",
            "state: input-required",
            "createdAt: 2023-11-14T22:13:20+00:00",
            "updatedAt: 2023-11-14T22:14:20+00:00",
            "milestones: 0",
            "roster: 1",
            "gates: 0",
        ]
    );
    let described = task_summary(&sample_task("All of it"));
    assert_eq!(described.len(), 10);
    assert_eq!(described[2], "description: All of it");
    assert_eq!(described[3], "topology: squad");
}

#[test]
fn event_rows_name_the_issuer_or_a_dash() {
    assert_eq!(
        event_row(&sample_event(Some("orchestrator"))),
        "2023-11-14T22:13:20+00:00\tagent.started\tby=orchestrator"
    );
    assert_eq!(event_row(&sample_event(None)), "2023-11-14T22:13:20+00:00\tagent.started\tby=-");
}

#[test]
fn agent_rows_and_documents() {
    let started = SubagentSpawnResponse { agent_instance: "w1".to_string(), pid: 4242 };
    assert_eq!(spawn_row(&started), "w1\tpid=4242");
    assert_eq!(to_text(&spawn_json(&started)), r#"{"agentInstance":"w1","pid":4242}"#);

    let info = SubagentInfo {
        agent_instance: "w1".to_string(),
        agent: "coder".to_string(),
        status: SubagentStatus::Blocked,
    };
    assert_eq!(subagent_row(&info), "w1\tblocked\tcoder");
    assert_eq!(
        to_text(&subagents_json(&vec![info.clone(), info])),
        r#"[{"agent":"coder","agentInstance":"w1","status":"blocked"},{"agent":"coder","agentInstance":"w1","status":"blocked"}]"#
    );
    assert_eq!(to_text(&subagents_json(&Vec::new())), "[]");

    let found = SubagentWaitAnyResult {
        agent_instance: "w2".to_string(),
        status: SubagentStatus::Completed,
    };
    assert_eq!(wait_row(&found), "w2\tcompleted");
    assert_eq!(to_text(&wait_json(&found)), r#"{"agentInstance":"w2","status":"completed"}"#);

    assert_eq!(cancel_row("w3"), "cancelled\tw3");
    assert_eq!(to_text(&cancel_json("w3")), r#"{"agentInstance":"w3","cancelled":true}"#);
}

#[test]
fn task_and_event_documents() {
    let created = CreateTaskResponse { id: "task-9".to_string(), message: "ok".to_string() };
    assert_eq!(to_text(&created_json(&created)), r#"{"id":"task-9","message":"ok"}"#);

    let listed = tasks_json(&vec![sample_task("")]);
    let first = &listed.as_array().unwrap()[0];
    assert_eq!(first.str_at("id").map(|s| s.as_str()), Some("task-1"));
    assert_eq!(first.str_at("state").map(|s| s.as_str()), Some("input-required"));

    let events = events_json(&vec![sample_event(None), sample_event(Some("user"))]);
    let items = events.as_array().unwrap();
    assert_eq!(items.len(), 2);
    assert_eq!(items[1].str_at("by").map(|s| s.as_str()), Some("user"));
    assert_eq!(items[0].str_at("type").map(|s| s.as_str()), Some("agent.started"));
}

#[test]
fn error_messages_name_what_went_wrong() {
    assert_eq!(
        TaskStoreError::TaskNotFound { task_id: "t".to_string() }.message(),
        "task not found: t"
    );
    assert_eq!(
        TaskStoreError::InvalidTaskId { task_id: "a b".to_string() }.message(),
        "invalid task id: a b"
    );
    assert_eq!(TaskStoreError::Yaml("bad".to_string()).message(), "yaml error: bad");
    assert_eq!(
        OrchestratorError::Store(TaskStoreError::Io("gone".to_string())).message(),
        "io error: gone"
    );
    assert_eq!(
        OrchestratorError::ConcurrencyLimit { active: 3, limit: 3 }.message(),
        "concurrency limit exceeded: active=3, limit=3"
    );
    assert_eq!(
        OrchestratorError::WaitAnyTimeout { timeout_seconds: 0 }.message(),
        "wait-any timeout after 0s"
    );
    assert_eq!(
        OrchestratorError::SubagentNotFound { agent_instance: "w".to_string() }.message(),
        "subagent not found: w"
    );
    assert_eq!(
        OrchestratorError::SubagentAlreadyExists { agent_instance: "w".to_string() }.message(),
        "subagent already exists: w"
    );
    assert_eq!(
        OrchestratorError::InvalidAgentInstance { agent_instance: "w w".to_string() }.message(),
        "invalid agent instance: w w"
    );
    assert_eq!(OrchestratorError::CodexNotFound.message(), "codex binary not found on PATH");
    assert_eq!(
        OrchestratorError::UnsupportedAdapter { adapter: "x".to_string() }.message(),
        "io error: unsupported adapter: x"
    );
    assert_eq!(
        CodexExecError::MissingFinalOutput { path: "/a/final.json".to_string() }.message(),
        "worker final output is missing: /a/final.json"
    );
    assert_eq!(CodexExecError::CodexNotFound.message(), "codex binary not found on PATH");
    assert_eq!(CodexExecError::Join("cancelled".to_string()).message(), "join error: cancelled");
    assert_eq!(
        CodexAppServerError::RequestTimeout { method: "turn/start".to_string(), timeout_secs: 30 }
            .message(),
        "request timed out after 30s: turn/start"
    );
    assert_eq!(
        CodexAppServerError::ServerError {
            method: "thread/fork".to_string(),
            message: "no such thread".to_string(),
        }
        .message(),
        "server error for thread/fork: no such thread"
    );
    assert_eq!(
        CodexAppServerError::ResponseChannelClosed { method: "m".to_string() }.message(),
        "response channel closed: m"
    );
    assert_eq!(
        CodexAppServerError::MissingThreadId.message(),
        "thread id missing from thread response"
    );
}

#[test]
fn session_errors_reach_the_orchestrator() {
    assert_eq!(
        orchestrator_error_of(CodexAppServerError::CodexNotFound),
        OrchestratorError::CodexNotFound
    );
    assert_eq!(
        orchestrator_error_of(CodexAppServerError::Json("eof".to_string())),
        OrchestratorError::Json("eof".to_string())
    );
    assert_eq!(
        orchestrator_error_of(CodexAppServerError::Io("pipe".to_string())),
        OrchestratorError::Io("pipe".to_string())
    );
    assert_eq!(
        orchestrator_error_of(CodexAppServerError::MissingThreadId),
        OrchestratorError::Io("thread id missing from thread response".to_string())
    );
}

#[test]
fn files_of_an_agent_and_of_a_task() {
    let agent = agent_layout("/ws/.coco/tasks/t1", "w1");
    assert_eq!(agent.agent_dir, "/ws/.coco/tasks/t1/agents/w1");
    assert_eq!(agent.runtime_dir, "/ws/.coco/tasks/t1/agents/w1/runtime");
    assert_eq!(agent.artifacts_dir, "/ws/.coco/tasks/t1/agents/w1/artifacts");
    assert_eq!(agent.codex_home_dir, "/ws/.coco/tasks/t1/agents/w1/codex_home");
    assert_eq!(agent.session_path, "/ws/.coco/tasks/t1/agents/w1/session.json");
    assert_eq!(agent.events_path, "/ws/.coco/tasks/t1/agents/w1/runtime/events.jsonl");
    assert_eq!(agent.stderr_path, "/ws/.coco/tasks/t1/agents/w1/runtime/stderr.log");
    assert_eq!(agent.pid_path, "/ws/.coco/tasks/t1/agents/w1/runtime/pid");
    assert_eq!(agent.requests_path, "/ws/.coco/tasks/t1/agents/w1/runtime/requests.jsonl");
    assert_eq!(agent.final_output_path, "/ws/.coco/tasks/t1/agents/w1/artifacts/final.json");
    assert_eq!(layout_of_dir("/x").pid_path, "/x/runtime/pid");

    let shared = shared_layout("/ws/.coco/tasks/t1");
    assert_eq!(shared.state_board_path, "/ws/.coco/tasks/t1/shared/state-board.md");
    assert_eq!(shared.reports_dir, "/ws/.coco/tasks/t1/shared/reports");
    assert_eq!(shared.evidence_dir, "/ws/.coco/tasks/t1/shared/evidence");
    assert_eq!(shared.evidence_index_path, "/ws/.coco/tasks/t1/shared/evidence/index.json");
    assert_eq!(shared.joined_summary_md, "/ws/.coco/tasks/t1/shared/reports/joined-summary.md");
    assert_eq!(shared.joined_summary_json, "/ws/.coco/tasks/t1/shared/reports/joined-summary.json");
}
