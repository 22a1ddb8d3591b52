use agentmesh::error::{exit_code_for_error, OrchestratorError, TaskStoreError};
use agentmesh::ids::{validate_agent_instance, validate_id, validate_task_id};
use agentmesh::json::to_text;
use agentmesh::reconcile::{agent_event, SubagentInfo, SubagentStatus};
use agentmesh::supervisor::{
    admit_spawn, cancel_step, count_running, effective_timeout, exec_arguments, finish_cancel,
    first_finished, liveness_after_signal, liveness_after_wait, parse_pid, pid_file_content,
    register_spawn, signal_delivered, wait_any_step, CancelAction, CancelPhase, CancelSignal,
    Liveness, ProbeError, WaitStep,
};
use agentmesh::task::{
    AgentInstance, AgentInstanceState, TaskConfig, TaskFile, TaskState, TaskTopology, Timestamp,
};

fn info(name: &str, status: SubagentStatus) -> SubagentInfo {
    SubagentInfo { agent_instance: name.to_string(), agent: "worker".to_string(), status }
}

fn now() -> Timestamp {
    Timestamp { secs: 10, nanos: 0 }
}

fn task(roster: Vec<AgentInstance>) -> TaskFile {
    TaskFile {
        id: "task-1".to_string(),
        title: "t".to_string(),
        description: String::new(),
        topology: TaskTopology::Swarm,
        state: TaskState::Working,
        created_at: Timestamp { secs: 1, nanos: 0 },
        updated_at: Timestamp { secs: 1, nanos: 0 },
        milestones: Vec::new(),
        roster,
        gates: Vec::new(),
        config: TaskConfig::default(),
    }
}

fn agent(instance: &str, state: AgentInstanceState) -> AgentInstance {
    AgentInstance {
        instance: instance.to_string(),
        agent: "worker".to_string(),
        state,
        assigned_milestone: None,
        skills: Vec::new(),
    }
}

#[test]
fn concurrency_cap_rejects_third_spawn() {
    let infos = vec![info("a1", SubagentStatus::Running), info("a2", SubagentStatus::Running)];
    assert_eq!(count_running(&infos), 2);
    assert_eq!(
        admit_spawn(&infos, 2, "a3", "worker", false),
        Err(OrchestratorError::ConcurrencyLimit { active: 2, limit: 2 })
    );
}

#[test]
fn finishing_one_agent_unblocks_exactly_one_spawn() {
    let mut infos = vec![info("a1", SubagentStatus::Running), info("a2", SubagentStatus::Running)];
    assert!(admit_spawn(&infos, 2, "a3", "worker", false).is_err());
    infos[0].status = SubagentStatus::Completed;
    assert_eq!(admit_spawn(&infos, 2, "a3", "worker", false), Ok(()));
    infos.push(info("a3", SubagentStatus::Running));
    assert_eq!(
        admit_spawn(&infos, 2, "a4", "worker", false),
        Err(OrchestratorError::ConcurrencyLimit { active: 2, limit: 2 })
    );
}

#[test]
fn admission_checks_ids_then_roster_then_limit_then_directory() {
    let infos = vec![info("a1", SubagentStatus::Running)];
    assert_eq!(
        admit_spawn(&infos, 0, "bad id", "worker", true),
        Err(OrchestratorError::InvalidAgentInstance { agent_instance: "bad id".to_string() })
    );
    assert_eq!(
        admit_spawn(&infos, 0, "a2", "", true),
        Err(OrchestratorError::InvalidAgentInstance { agent_instance: String::new() })
    );
    assert_eq!(
        admit_spawn(&infos, 0, "a1", "worker", true),
        Err(OrchestratorError::SubagentAlreadyExists { agent_instance: "a1".to_string() })
    );
    assert_eq!(
        admit_spawn(&infos, 1, "a2", "worker", true),
        Err(OrchestratorError::ConcurrencyLimit { active: 1, limit: 1 })
    );
    assert_eq!(
        admit_spawn(&infos, 2, "a2", "worker", true),
        Err(OrchestratorError::SubagentAlreadyExists { agent_instance: "a2".to_string() })
    );
    assert_eq!(admit_spawn(&infos, 2, "a2", "worker", false), Ok(()));
}

#[test]
fn identifiers_follow_the_rule() {
    assert!(validate_task_id("task-0123abc_X").is_ok());
    assert_eq!(
        validate_task_id("a/b"),
        Err(TaskStoreError::InvalidTaskId { task_id: "a/b".to_string() })
    );
    assert!(validate_task_id("").is_err());
    assert!(validate_agent_instance("w_1-a").is_ok());
    assert!(validate_agent_instance("w 1").is_err());
    assert!(validate_agent_instance("\u{e9}").is_err());
    assert_eq!(validate_id("x.y", "task_id"), Err("invalid task_id: x.y".to_string()));
    assert_eq!(validate_id("xy", "task_id"), Ok(()));
}

#[test]
fn exit_codes_follow_the_error_kind() {
    let not_found = OrchestratorError::Store(TaskStoreError::TaskNotFound { task_id: "t".into() });
    assert_eq!(exit_code_for_error(&not_found), 3);
    assert_eq!(
        exit_code_for_error(&OrchestratorError::SubagentNotFound { agent_instance: "a".into() }),
        3
    );
    assert_eq!(exit_code_for_error(&OrchestratorError::WaitAnyTimeout { timeout_seconds: 1 }), 4);
    assert_eq!(
        exit_code_for_error(&OrchestratorError::InvalidAgentInstance { agent_instance: "a".into() }),
        2
    );
    assert_eq!(
        exit_code_for_error(&OrchestratorError::Store(TaskStoreError::InvalidTaskId {
            task_id: "a".into()
        })),
        2
    );
    assert_eq!(exit_code_for_error(&OrchestratorError::CodexNotFound), 1);
    assert_eq!(exit_code_for_error(&OrchestratorError::Io("x".into())), 1);
    assert_eq!(exit_code_for_error(&OrchestratorError::ConcurrencyLimit { active: 1, limit: 1 }), 1);
}

#[test]
fn exec_arguments_are_in_order() {
    assert_eq!(
        exec_arguments("/cwd", "/schema.json", "/final.json", "do it"),
        vec![
            "exec",
            "--json",
            "-C",
            "/cwd",
            "--output-schema",
            "/schema.json",
            "--output-last-message",
            "/final.json",
            "do it"
        ]
    );
}

#[test]
fn pid_file_round_trip() {
    assert_eq!(pid_file_content(4242), "4242\n");
    assert_eq!(pid_file_content(0), "0\n");
    assert_eq!(parse_pid("4242\n"), Ok(Some(4242)));
    assert_eq!(parse_pid("  \n"), Ok(None));
    assert_eq!(parse_pid(""), Ok(None));
    assert_eq!(parse_pid("-7"), Ok(Some(-7)));
    assert_eq!(parse_pid("+7"), Ok(Some(7)));
    assert_eq!(parse_pid("2147483647"), Ok(Some(i32::MAX)));
    assert_eq!(parse_pid("-2147483648"), Ok(Some(i32::MIN)));
    assert!(parse_pid("2147483648").is_err());
    assert!(parse_pid("12a").is_err());
    assert!(parse_pid("-").is_err());
    assert!(parse_pid("1 2").is_err());
}

#[test]
fn register_spawn_adds_active_roster_entry_and_started_event() {
    let (t, e) = register_spawn(task(Vec::new()), "a1", "worker", "/cwd", "codex-exec", "orchestrator", now());
    assert_eq!(t.roster, vec![agent("a1", AgentInstanceState::Active)]);
    assert_eq!(t.updated_at, now());
    assert_eq!(e.event_type, "agent.started");
    assert_eq!(e.task_id, "task-1");
    assert_eq!(e.agent_instance.as_deref(), Some("a1"));
    assert_eq!(e.by.as_deref(), Some("orchestrator"));
    assert_eq!(to_text(&e.payload), r#"{"adapter":"codex-exec","cwd":"/cwd","agentInstance":"a1"}"#);
}

#[test]
fn wait_any_with_zero_timeout_returns_immediately() {
    let running = vec![info("a1", SubagentStatus::Running), info("a2", SubagentStatus::Running)];
    assert_eq!(
        wait_any_step(&running, true, 0),
        WaitStep::TimedOut(OrchestratorError::WaitAnyTimeout { timeout_seconds: 0 })
    );
    assert_eq!(wait_any_step(&running, false, 5), WaitStep::Poll);
    let mixed = vec![
        info("a1", SubagentStatus::Running),
        info("a2", SubagentStatus::Failed),
        info("a3", SubagentStatus::Completed),
    ];
    match wait_any_step(&mixed, true, 0) {
        WaitStep::Finished(found) => {
            assert_eq!(found.agent_instance, "a2");
            assert_eq!(found.status, SubagentStatus::Failed);
        }
        other => panic!("unexpected {other:?}"),
    }
    assert!(first_finished(&running).is_none());
    assert!(matches!(wait_any_step(&Vec::new(), true, 9), WaitStep::TimedOut(_)));
}

#[test]
fn timeout_defaults_to_task_config() {
    let config = TaskConfig::default();
    assert_eq!(config.max_concurrent_agents, 3);
    assert_eq!(config.timeout_seconds, 3600);
    assert!(!config.auto_approve);
    assert_eq!(effective_timeout(None, &config), 3600);
    assert_eq!(effective_timeout(Some(0), &config), 0);
}

#[test]
fn cancel_escalates_interrupt_terminate_kill() {
    let mut phase = CancelPhase::Start;
    let mut sent = Vec::new();
    let mut clock: u64 = 0;
    let mut phase_started: u64 = 0;
    let mut stamps = Vec::new();
    loop {
        let (next, action) = cancel_step(phase, true, clock - phase_started);
        phase = next;
        match action {
            CancelAction::Send(sig) => {
                sent.push(sig);
                stamps.push(clock);
                phase_started = clock;
            }
            CancelAction::Sleep(ms) => clock += ms,
            CancelAction::Finish => break,
        }
    }
    assert_eq!(sent, vec![CancelSignal::Interrupt, CancelSignal::Terminate, CancelSignal::Kill]);
    assert_eq!(stamps, vec![0, 3000, 5000]);
    assert_eq!(phase, CancelPhase::Done);
}

#[test]
fn cancel_of_a_gone_process_sends_nothing() {
    assert_eq!(cancel_step(CancelPhase::Start, false, 0), (CancelPhase::Done, CancelAction::Finish));
    assert_eq!(
        cancel_step(CancelPhase::Interrupted, false, 100),
        (CancelPhase::Done, CancelAction::Finish)
    );
    assert_eq!(
        cancel_step(CancelPhase::Interrupted, true, 2999),
        (CancelPhase::Interrupted, CancelAction::Sleep(100))
    );
    assert_eq!(
        cancel_step(CancelPhase::Terminated, true, 1999),
        (CancelPhase::Terminated, CancelAction::Sleep(100))
    );
}

#[test]
fn probes_map_to_liveness() {
    assert_eq!(liveness_after_wait(0, 7, ProbeError::Other), Liveness::Alive);
    assert_eq!(liveness_after_wait(7, 7, ProbeError::Other), Liveness::Gone);
    assert_eq!(liveness_after_wait(-1, 7, ProbeError::NoChild), Liveness::Unknown);
    assert_eq!(liveness_after_wait(-1, 7, ProbeError::NoSuchProcess), Liveness::Gone);
    assert_eq!(liveness_after_wait(-1, 7, ProbeError::Other), Liveness::Failed);
    assert_eq!(liveness_after_wait(5, 7, ProbeError::Other), Liveness::Unknown);
    assert_eq!(liveness_after_signal(0, ProbeError::Other), Liveness::Alive);
    assert_eq!(liveness_after_signal(-1, ProbeError::NoSuchProcess), Liveness::Gone);
    assert_eq!(liveness_after_signal(-1, ProbeError::Other), Liveness::Failed);
    assert!(signal_delivered(-1, ProbeError::NoSuchProcess));
    assert!(signal_delivered(0, ProbeError::Other));
    assert!(!signal_delivered(-1, ProbeError::Other));
}

#[test]
fn cancel_marks_failed_and_records_once() {
    let t = task(vec![agent("a1", AgentInstanceState::Active)]);
    let done = finish_cancel(t, &Vec::new(), "a1", now()).unwrap();
    assert!(done.changed);
    assert_eq!(done.task.roster[0].state, AgentInstanceState::Failed);
    assert_eq!(done.task.updated_at, now());
    assert_eq!(done.events.len(), 1);
    assert_eq!(done.events[0].event_type, "agent.cancelled");
    let log = vec![agent_event("task-1", "a1", "agent.cancelled", agentmesh::json::Json::object(), now())];
    let again = finish_cancel(done.task, &log, "a1", Timestamp { secs: 99, nanos: 0 }).unwrap();
    assert!(!again.changed);
    assert!(again.events.is_empty());
    assert_eq!(again.task.updated_at, now());
}

#[test]
fn cancel_of_unknown_agent_is_not_found() {
    let t = task(vec![agent("a1", AgentInstanceState::Active)]);
    assert_eq!(
        finish_cancel(t.clone(), &Vec::new(), "zz", now()).unwrap_err(),
        OrchestratorError::SubagentNotFound { agent_instance: "zz".to_string() }
    );
    assert_eq!(
        finish_cancel(t, &Vec::new(), "z z", now()).unwrap_err(),
        OrchestratorError::InvalidAgentInstance { agent_instance: "z z".to_string() }
    );
}
