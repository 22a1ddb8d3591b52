use agentmesh::controller::{
    after_spawn, controller_state_event, monitor_step, pending_subtasks, set_task_state_working,
    AfterSpawn, ControllerAction, ControllerEvent, ControllerOptions, ControllerOutcome,
    ControllerRunResult, ControllerState, DispatchAction, JoinTaskResponse, MonitorStep,
    OrchestratorActions, OrchestratorSubtask,
};
use agentmesh::error::OrchestratorError;
use agentmesh::json::to_text;
use agentmesh::orchestrator::Orchestrator;
use agentmesh::reconcile::{SubagentInfo, SubagentStatus};
use agentmesh::stateboard::{
    escape_markdown_inline, render_state_board, upsert_managed_block, write_state_board,
};
use agentmesh::task::{TaskConfig, TaskFile, TaskState, TaskTopology, Timestamp};

fn subtask(id: &str, instance: Option<&str>, adapter: &str) -> OrchestratorSubtask {
    OrchestratorSubtask {
        task_id: id.to_string(),
        agent_instance: instance.map(|s| s.to_string()),
        title: format!("title `{id}`"),
        agent: "worker".to_string(),
        adapter: adapter.to_string(),
        prompt: "do".to_string(),
        mode: None,
        forked_from_thread_id: None,
        cwd: None,
        output_schema_path: None,
    }
}

fn info(name: &str, status: SubagentStatus) -> SubagentInfo {
    SubagentInfo { agent_instance: name.to_string(), agent: "worker".to_string(), status }
}

fn task() -> TaskFile {
    TaskFile {
        id: "task-1".to_string(),
        title: "Title".to_string(),
        description: String::new(),
        topology: TaskTopology::Squad,
        state: TaskState::Created,
        created_at: Timestamp { secs: 1, nanos: 0 },
        updated_at: Timestamp { secs: 1, nanos: 0 },
        milestones: Vec::new(),
        roster: Vec::new(),
        gates: Vec::new(),
        config: TaskConfig::default(),
    }
}

const BEGIN: &str = "<!-- AGENTMESH:STATEBOARD:START -->";
const END: &str = "<!-- AGENTMESH:STATEBOARD:END -->";

#[test]
fn controller_states_follow_the_order() {
    let o = Orchestrator::new("/ws".to_string());
    let (s, a) = o.controller_run_actions(None, ControllerEvent::Begin);
    assert_eq!((s, a), (Some(ControllerState::Dispatching), ControllerAction::Dispatch));
    let (s, a) = o.controller_run_actions(s, ControllerEvent::Dispatched);
    assert_eq!((s, a), (Some(ControllerState::Monitoring), ControllerAction::Monitor));
    let (s, a) = o.controller_run_actions(s, ControllerEvent::Settled(ControllerOutcome::Done));
    assert_eq!((s, a), (Some(ControllerState::Joining), ControllerAction::Join));
    let joined = JoinTaskResponse { joined_summary_md: "m".into(), joined_summary_json: "j".into() };
    let (s, a) = o.controller_run_actions(s, ControllerEvent::Joined(joined.clone()));
    assert_eq!(s, Some(ControllerState::Done));
    assert_eq!(
        a,
        ControllerAction::Finish(ControllerRunResult {
            outcome: ControllerOutcome::Done,
            joined_summary: Some(joined)
        })
    );
}

#[test]
fn blocked_monitoring_ends_the_run_without_join() {
    let o = Orchestrator::new("/ws".to_string());
    let (s, a) = o.controller_run_actions(
        Some(ControllerState::Monitoring),
        ControllerEvent::Settled(ControllerOutcome::Blocked),
    );
    assert_eq!(s, Some(ControllerState::Blocked));
    assert_eq!(
        a,
        ControllerAction::Finish(ControllerRunResult {
            outcome: ControllerOutcome::Blocked,
            joined_summary: None
        })
    );
    let (s, a) = o.controller_run_actions(Some(ControllerState::Done), ControllerEvent::Begin);
    assert_eq!((s, a), (Some(ControllerState::Done), ControllerAction::Stay));
    let (s, a) = o.controller_run_actions(None, ControllerEvent::Dispatched);
    assert_eq!((s, a), (None, ControllerAction::Stay));
}

#[test]
fn state_names() {
    assert_eq!(ControllerState::Dispatching.as_str(), "dispatching");
    assert_eq!(ControllerState::Monitoring.as_str(), "monitoring");
    assert_eq!(ControllerState::Joining.as_str(), "joining");
    assert_eq!(ControllerState::Blocked.as_str(), "blocked");
    assert_eq!(ControllerState::Done.as_str(), "done");
}

#[test]
fn options_default_to_workspace_paths() {
    let o = ControllerOptions::new("/ws");
    assert_eq!(o.codex_bin, "codex");
    assert_eq!(o.output_schema_path, "/ws/schemas/worker-output.schema.json");
    assert_eq!(o.default_cwd, "/ws");
    assert_eq!(o.poll_interval_ms, 250);
    assert_eq!(o.timeout_seconds, None);
}

#[test]
fn resolved_instance_defaults_to_task_id() {
    assert_eq!(subtask("t1", None, "x").resolved_agent_instance(), "t1");
    assert_eq!(subtask("t1", Some("w9"), "x").resolved_agent_instance(), "w9");
}

#[test]
fn dispatch_skips_agents_already_in_roster() {
    let actions = OrchestratorActions {
        session_goal: "g".into(),
        tasks: vec![subtask("a", None, "codex-exec"), subtask("b", Some("w2"), "codex-exec"), subtask("c", None, "codex-exec")],
    };
    let infos = vec![info("w2", SubagentStatus::Running), info("c", SubagentStatus::Failed)];
    let pending = pending_subtasks(&actions, &infos);
    assert_eq!(pending.len(), 1);
    assert_eq!(pending[0].task_id, "a");
}

#[test]
fn dispatch_by_adapter() {
    let o = Orchestrator::new("/ws".to_string());
    let opts = ControllerOptions::new("/ws");
    let mut st = subtask("a", None, "codex-exec");
    st.cwd = Some("sub".to_string());
    st.output_schema_path = Some("/abs/schema.json".to_string());
    match o.dispatch_actions("task-1", &st, &opts) {
        DispatchAction::SpawnBatch(req) => {
            assert_eq!(req.task_id, "task-1");
            assert_eq!(req.agent_instance, "a");
            assert_eq!(req.agent, "worker");
            assert_eq!(req.prompt, "do");
            assert_eq!(req.cwd, "/ws/sub");
            assert_eq!(req.codex_bin, "codex");
            assert_eq!(req.output_schema_path, "/abs/schema.json");
        }
        other => panic!("unexpected {other:?}"),
    }
    let plain = o.dispatch_codex_exec("task-1", &subtask("b", None, "codex-exec"), &opts);
    assert_eq!(plain.cwd, "/ws");
    assert_eq!(plain.output_schema_path, "/ws/schemas/worker-output.schema.json");
    assert_eq!(
        o.dispatch_actions("task-1", &subtask("a", None, "codex-app-server"), &opts),
        DispatchAction::RunPersistent
    );
    assert_eq!(
        o.dispatch_actions("task-1", &subtask("a", None, "telepathy"), &opts),
        DispatchAction::Fail(OrchestratorError::UnsupportedAdapter { adapter: "telepathy".into() })
    );
}

#[test]
fn concurrency_limit_is_a_reason_to_wait() {
    assert_eq!(after_spawn(Ok(())), AfterSpawn::Advance);
    assert_eq!(
        after_spawn(Err(OrchestratorError::ConcurrencyLimit { active: 2, limit: 2 })),
        AfterSpawn::WaitAndRetry
    );
    assert_eq!(
        after_spawn(Err(OrchestratorError::CodexNotFound)),
        AfterSpawn::Abort(OrchestratorError::CodexNotFound)
    );
}

#[test]
fn monitor_looks_only_at_planned_agents() {
    let actions = OrchestratorActions {
        session_goal: "g".into(),
        tasks: vec![subtask("a", None, "codex-exec"), subtask("b", None, "codex-exec")],
    };
    let running = vec![info("a", SubagentStatus::Running), info("b", SubagentStatus::Completed)];
    assert_eq!(monitor_step(&actions, &running), MonitorStep::Wait);
    let done = vec![info("a", SubagentStatus::Failed), info("b", SubagentStatus::Cancelled), info("other", SubagentStatus::Running)];
    assert_eq!(monitor_step(&actions, &done), MonitorStep::Done);
    let blocked = vec![info("a", SubagentStatus::Running), info("b", SubagentStatus::Blocked)];
    assert_eq!(monitor_step(&actions, &blocked), MonitorStep::Blocked);
    let stranger = vec![info("a", SubagentStatus::Completed), info("other", SubagentStatus::Blocked)];
    assert_eq!(monitor_step(&actions, &stranger), MonitorStep::Done);
    assert_eq!(monitor_step(&actions, &Vec::new()), MonitorStep::Done);
}

#[test]
fn created_task_starts_working() {
    let (t, changed) = set_task_state_working(task(), Timestamp { secs: 7, nanos: 0 });
    assert!(changed);
    assert_eq!(t.state, TaskState::Working);
    assert_eq!(t.updated_at, Timestamp { secs: 7, nanos: 0 });
    let (t2, changed) = set_task_state_working(t.clone(), Timestamp { secs: 9, nanos: 0 });
    assert!(!changed);
    assert_eq!(t2, t);
}

#[test]
fn controller_event_payload() {
    let e = controller_state_event("task-1", ControllerState::Dispatching, Some("goal"), Timestamp { secs: 1, nanos: 0 });
    assert_eq!(e.event_type, "controller.state.changed");
    assert_eq!(e.by.as_deref(), Some("controller"));
    assert_eq!(e.agent_instance, None);
    assert_eq!(to_text(&e.payload), r#"{"state":"dispatching","sessionGoal":"goal"}"#);
    let e = controller_state_event("task-1", ControllerState::Done, None, Timestamp { secs: 1, nanos: 0 });
    assert_eq!(to_text(&e.payload), r#"{"state":"done"}"#);
}

#[test]
fn new_board_gets_block_and_notes() {
    let out = upsert_managed_block(&None, "content\n\n");
    assert_eq!(
        out,
        format!("{BEGIN}\ncontent\n{END}\n\n## Notes\n\n- You can write human notes below. Controller will preserve this section.\n")
    );
}

#[test]
fn content_outside_markers_is_kept_byte_for_byte() {
    let existing = format!("intro \u{e9}\n{BEGIN}\nold\n{END}\ntrailer\n  keep  ");
    let out = upsert_managed_block(&Some(existing), "new\n");
    assert_eq!(out, format!("intro \u{e9}\n{BEGIN}\nnew\n{END}\ntrailer\n  keep  "));
    let again = upsert_managed_block(&Some(out.clone()), "newer");
    assert_eq!(again, format!("intro \u{e9}\n{BEGIN}\nnewer\n{END}\ntrailer\n  keep  "));
    assert_eq!(upsert_managed_block(&Some(again.clone()), "newer \n"), again);

    let existing = format!("pre\n{BEGIN}\nold\n{END}\npost\n");
    let out = upsert_managed_block(&Some(existing), "new");
    assert_eq!(out, format!("pre\n{BEGIN}\nnew\n{END}\npost\n"));

    let bare = format!("{BEGIN}{END}");
    assert_eq!(upsert_managed_block(&Some(bare), "x"), format!("{BEGIN}\nx\n{END}"));
}

#[test]
fn a_new_board_is_regenerated_in_place() {
    let first = upsert_managed_block(&None, "one");
    let second = upsert_managed_block(&Some(first.clone()), "two");
    assert_eq!(second, first.replace("\none\n", "\ntwo\n"));
    assert_eq!(second.matches(BEGIN).count(), 1);
    assert_eq!(second.matches(END).count(), 1);
    assert!(second.ends_with("Controller will preserve this section.\n"));
}

#[test]
fn board_without_valid_markers_is_prepended() {
    let out = upsert_managed_block(&Some("  my notes \n".to_string()), "c");
    assert_eq!(out, format!("{BEGIN}\nc\n{END}\n\nmy notes"));
    let reversed = format!("{END} x {BEGIN}");
    let out = upsert_managed_block(&Some(reversed.clone()), "c");
    assert_eq!(out, format!("{BEGIN}\nc\n{END}\n\n{reversed}"));
}

#[test]
fn state_board_lists_subtasks_with_status() {
    let actions = OrchestratorActions {
        session_goal: "  ship it \n".into(),
        tasks: vec![subtask("a", None, "codex-exec"), subtask("b", Some("w2"), "codex-app-server")],
    };
    let infos = vec![info("a", SubagentStatus::Running), info("a", SubagentStatus::Blocked)];
    let joined = JoinTaskResponse { joined_summary_md: "/x/m.md".into(), joined_summary_json: "/x/j.json".into() };
    let text = render_state_board(&task(), ControllerState::Done, "NOW", &actions, &infos, Some(&joined));
    let want = "# StateBoard\n\n- task: `task-1`\n- title: Title\n- controllerState: `done`\n- updatedAt: `NOW`\n- sessionGoal: ship it\n\n## Subtasks\n\n- `a` agent=`worker` adapter=`codex-exec` status=`blocked` title=\"title \\`a\\`\"\n- `w2` agent=`worker` adapter=`codex-app-server` status=`unknown` title=\"title \\`b\\`\"\n\n## Key Artifacts\n\n- joinedSummaryMd: `./shared/reports/joined-summary.md`\n- joinedSummaryJson: `./shared/reports/joined-summary.json`\n- evidenceIndex: `./shared/evidence/index.json`\n- humanNotes: `./shared/human-notes.md`\n- joinedSummaryMdPath: `/x/m.md`\n- joinedSummaryJsonPath: `/x/j.json`\n\n";
    assert_eq!(text, want);
    assert_eq!(escape_markdown_inline("a`b"), "a\\`b");
}

#[test]
fn written_board_is_bracketed_by_markers() {
    let actions = OrchestratorActions { session_goal: "g".into(), tasks: Vec::new() };
    let out = write_state_board(
        &Some("before\n".to_string()),
        &task(),
        ControllerState::Monitoring,
        Timestamp { secs: 0, nanos: 0 },
        &actions,
        &Vec::new(),
        None,
    );
    assert!(out.starts_with(BEGIN));
    assert!(out.contains("- updatedAt: `1970-01-01T00:00:00+00:00`"));
    assert!(out.contains("- controllerState: `monitoring`"));
    assert!(out.ends_with(&format!("{END}\n\nbefore")));
}
