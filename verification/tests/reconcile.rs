use agentmesh::json::{parse, to_text, Json};
use agentmesh::reconcile::{
    blocked_gate_reason, derive_status, reconcile, Observation, SubagentStatus, WorkerSnapshot,
};
use agentmesh::task::{
    AgentInstance, AgentInstanceState, GateState, GateType, TaskConfig, TaskEvent, TaskFile,
    TaskState, TaskTopology, Timestamp,
};

fn now() -> Timestamp {
    Timestamp { secs: 1_700_000_000, nanos: 5 }
}

fn agent(instance: &str, state: AgentInstanceState) -> AgentInstance {
    AgentInstance {
        instance: instance.to_string(),
        agent: "worker".to_string(),
        state,
        assigned_milestone: None,
        skills: Vec::new(),
    }
}

fn task(state: TaskState, roster: Vec<AgentInstance>) -> TaskFile {
    TaskFile {
        id: "task-1".to_string(),
        title: "t".to_string(),
        description: String::new(),
        topology: TaskTopology::Swarm,
        state,
        created_at: Timestamp { secs: 1_600_000_000, nanos: 0 },
        updated_at: Timestamp { secs: 1_600_000_000, nanos: 0 },
        milestones: Vec::new(),
        roster,
        gates: Vec::new(),
        config: TaskConfig { max_concurrent_agents: 2, timeout_seconds: 1, auto_approve: false },
    }
}

fn seen(final_text: Option<&str>, pid_alive: Option<bool>) -> Observation {
    Observation { final_text: final_text.map(|s| s.to_string()), pid_alive }
}

fn count(events: &[TaskEvent], ty: &str) -> usize {
    events.iter().filter(|e| e.event_type == ty).count()
}

#[test]
fn status_priority_is_cancelled_final_pid_state() {
    let done = parse(r#"{"status":"success","summary":"ok"}"#).unwrap();
    assert_eq!(
        derive_status(true, Some(&done), Some(true), AgentInstanceState::Active),
        SubagentStatus::Cancelled
    );
    assert_eq!(
        derive_status(false, Some(&done), Some(true), AgentInstanceState::Active),
        SubagentStatus::Completed
    );
    assert_eq!(
        derive_status(false, None, Some(true), AgentInstanceState::Failed),
        SubagentStatus::Running
    );
    assert_eq!(
        derive_status(false, None, Some(false), AgentInstanceState::Pending),
        SubagentStatus::Failed
    );
}

#[test]
fn final_status_maps_success_blocked_failed_and_anything_else() {
    for (text, want) in [
        (r#"{"status":"success"}"#, SubagentStatus::Completed),
        (r#"{"status":"blocked"}"#, SubagentStatus::Blocked),
        (r#"{"status":"failed"}"#, SubagentStatus::Failed),
        (r#"{"status":"weird"}"#, SubagentStatus::Failed),
        (r#"{"summary":"no status"}"#, SubagentStatus::Failed),
    ] {
        let doc = parse(text).unwrap();
        assert_eq!(derive_status(false, Some(&doc), None, AgentInstanceState::Active), want);
        assert_eq!(
            derive_status(false, Some(&doc), Some(true), AgentInstanceState::Pending),
            want,
            "liveness must not matter for {text}"
        );
    }
}

#[test]
fn persisted_state_is_the_last_resort() {
    let cases = [
        (AgentInstanceState::Active, SubagentStatus::Failed),
        (AgentInstanceState::Awaiting, SubagentStatus::Blocked),
        (AgentInstanceState::Completed, SubagentStatus::Completed),
        (AgentInstanceState::Failed, SubagentStatus::Failed),
        (AgentInstanceState::Pending, SubagentStatus::Running),
        (AgentInstanceState::Dormant, SubagentStatus::Running),
    ];
    for (state, want) in cases {
        assert_eq!(derive_status(false, None, None, state), want);
    }
}

#[test]
fn status_names_and_events() {
    assert_eq!(SubagentStatus::Running.as_str(), "running");
    assert_eq!(SubagentStatus::Completed.as_str(), "completed");
    assert_eq!(SubagentStatus::Failed.as_str(), "failed");
    assert_eq!(SubagentStatus::Blocked.as_str(), "blocked");
    assert_eq!(SubagentStatus::Cancelled.as_str(), "cancelled");
    assert_eq!(SubagentStatus::Running.event_type(), None);
    assert_eq!(SubagentStatus::Blocked.event_type(), Some("agent.blocked"));
    assert_eq!(SubagentStatus::Cancelled.event_type(), Some("agent.cancelled"));
}

#[test]
fn blocked_worker_materializes_gate_and_event() {
    let t = task(TaskState::Working, vec![agent("w1", AgentInstanceState::Active)]);
    let obs = vec![seen(
        Some(r#"{"status":"blocked","summary":"need creds","questions":["which env?"]}"#),
        Some(false),
    )];
    let out = reconcile(t, &Vec::new(), &obs, now());
    assert!(out.changed);
    assert_eq!(out.task.state, TaskState::InputRequired);
    assert_eq!(out.task.updated_at, now());
    assert_eq!(out.task.roster[0].state, AgentInstanceState::Awaiting);
    assert_eq!(out.task.gates.len(), 1);
    let gate = &out.task.gates[0];
    assert_eq!(gate.id, "gate-w1");
    assert_eq!(gate.gate_type, GateType::HumanApproval);
    assert_eq!(gate.state, GateState::Blocked);
    assert_eq!(gate.reason, "which env?");
    assert_eq!(gate.instructions_ref.as_deref(), Some("./shared/human-notes.md"));
    assert_eq!(gate.blocked_at, Some(now()));
    assert_eq!(gate.resolved_at, None);
    assert_eq!(out.subagents.len(), 1);
    assert_eq!(out.subagents[0].status, SubagentStatus::Blocked);
    assert_eq!(out.events.len(), 2);
    assert_eq!(out.events[0].event_type, "agent.blocked");
    assert_eq!(out.events[0].agent_instance.as_deref(), Some("w1"));
    assert_eq!(out.events[0].by.as_deref(), Some("orchestrator"));
    assert_eq!(to_text(&out.events[0].payload), r#"{"agentInstance":"w1"}"#);
    assert_eq!(out.events[1].event_type, "gate.blocked");
    assert_eq!(
        to_text(&out.events[1].payload),
        r#"{"reason":"which env?","gateId":"gate-w1","agentInstance":"w1"}"#
    );
}

#[test]
fn reconciling_twice_adds_nothing() {
    let t = task(
        TaskState::Working,
        vec![agent("w1", AgentInstanceState::Active), agent("w2", AgentInstanceState::Active)],
    );
    let obs = vec![
        seen(Some(r#"{"status":"blocked","summary":"s","questions":["a","b","c"]}"#), None),
        seen(Some(r#"{"status":"success","summary":"fine"}"#), Some(true)),
    ];
    let first = reconcile(t, &Vec::new(), &obs, now());
    assert_eq!(first.events.len(), 3);
    assert_eq!(first.task.gates[0].reason, "a (+2 more)");
    let later = Timestamp { secs: 1_800_000_000, nanos: 0 };
    let persisted = first.task.clone();
    let second = reconcile(first.task, &first.events, &obs, later);
    assert!(!second.changed);
    assert!(second.events.is_empty());
    assert_eq!(second.task, persisted);
    assert_eq!(second.subagents, first.subagents);
}

#[test]
fn each_agent_event_is_written_once() {
    let t = task(TaskState::Working, vec![agent("w1", AgentInstanceState::Active)]);
    let obs = vec![seen(None, Some(false))];
    let first = reconcile(t, &Vec::new(), &obs, now());
    assert_eq!(count(&first.events, "agent.failed"), 1);
    let mut log = first.events;
    for _ in 0..3 {
        let again = reconcile(first.task.clone(), &log, &obs, now());
        log.extend(again.events);
    }
    assert_eq!(count(&log, "agent.failed"), 1);
}

#[test]
fn cancellation_on_record_wins() {
    let t = task(TaskState::Working, vec![agent("w1", AgentInstanceState::Active)]);
    let cancelled = agentmesh::reconcile::agent_event("task-1", "w1", "agent.cancelled", Json::object(), now());
    let obs = vec![seen(Some(r#"{"status":"success","summary":"ok"}"#), Some(true))];
    let out = reconcile(t, &vec![cancelled], &obs, now());
    assert_eq!(out.subagents[0].status, SubagentStatus::Cancelled);
    assert_eq!(out.task.roster[0].state, AgentInstanceState::Failed);
    assert!(out.events.is_empty());
}

#[test]
fn terminal_task_state_is_never_rolled_back() {
    for state in [TaskState::Completed, TaskState::Failed, TaskState::Canceled] {
        let t = task(state, vec![agent("w1", AgentInstanceState::Awaiting)]);
        let out = reconcile(t, &Vec::new(), &vec![seen(None, None)], now());
        assert_eq!(out.task.state, state);
    }
    let t = task(TaskState::Created, vec![agent("w1", AgentInstanceState::Awaiting)]);
    let out = reconcile(t, &Vec::new(), &vec![seen(None, None)], now());
    assert_eq!(out.task.state, TaskState::InputRequired);
    assert_eq!(out.task.gates[0].reason, "final output is missing");
}

#[test]
fn unparsable_final_output_counts_as_absent() {
    let t = task(TaskState::Working, vec![agent("w1", AgentInstanceState::Active)]);
    let out = reconcile(t, &Vec::new(), &vec![seen(Some("{not json"), Some(true))], now());
    assert_eq!(out.subagents[0].status, SubagentStatus::Running);
    assert!(!out.changed);
}

#[test]
fn missing_observation_falls_back_to_state() {
    let t = task(TaskState::Working, vec![agent("w1", AgentInstanceState::Completed)]);
    let out = reconcile(t, &Vec::new(), &Vec::new(), now());
    assert_eq!(out.subagents[0].status, SubagentStatus::Completed);
    assert_eq!(out.events.len(), 1);
    assert_eq!(out.events[0].event_type, "agent.completed");
}

#[test]
fn gate_reason_prefers_questions_then_summary_then_name() {
    let snap = |summary: &str, questions: &[&str]| WorkerSnapshot {
        status: "blocked".to_string(),
        summary: summary.to_string(),
        questions: questions.iter().map(|q| q.to_string()).collect(),
        next_actions: Vec::new(),
    };
    assert_eq!(blocked_gate_reason("w1", &snap("s", &["only"])), "only");
    assert_eq!(blocked_gate_reason("w1", &snap("s", &["first", "x"])), "first (+1 more)");
    assert_eq!(blocked_gate_reason("w1", &snap("  need creds \n", &[])), "need creds");
    assert_eq!(blocked_gate_reason("w1", &snap("   ", &[])), "blocked by w1");
}
