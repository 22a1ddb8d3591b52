use agentmesh::codec::event_line;
use agentmesh::controller::{
    announcement, controller_state_event, ensure_agent_instance, monitor_step, pending_subtasks,
    set_task_state_working,
    ControllerAction, ControllerEvent, ControllerOptions, ControllerOutcome, DispatchAction,
    MonitorStep, OrchestratorActions, OrchestratorSubtask,
};
use agentmesh::error::{OrchestratorError, TaskStoreError};
use agentmesh::operations::FoundEntry;
use agentmesh::json::{parse, to_pretty_text, to_text};
use agentmesh::orchestrator::Orchestrator;
use agentmesh::reconcile::{probes_process, Observation, SubagentInfo, SubagentStatus};
use agentmesh::rpc::{
    extract_thread_id_from_thread_result, frame_line, initialize_params, notification_frame,
    read_line, request_frame, request_result, Reply, RequestIds, RequestOutcome,
};
use agentmesh::session::{session_descriptor, ThreadIdField};
use agentmesh::stateboard::write_state_board;
use agentmesh::store::select_events;
use agentmesh::supervisor::{
    admit_spawn, finish_cancel, register_spawn, SubagentSpawnRequest, WaitStep,
};
use agentmesh::task::{
    AgentInstance, AgentInstanceState, CreateTaskRequest, TaskConfig, TaskTopology, Timestamp,
};

fn now() -> Timestamp {
    Timestamp { secs: 1_700_000_000, nanos: 0 }
}

fn request(title: &str, config: Option<TaskConfig>) -> CreateTaskRequest {
    CreateTaskRequest {
        title: title.to_string(),
        description: String::new(),
        topology: TaskTopology::Swarm,
        milestones: Vec::new(),
        roster: Vec::new(),
        config,
    }
}

fn worker(instance: &str) -> AgentInstance {
    AgentInstance {
        instance: instance.to_string(),
        agent: "worker".to_string(),
        state: AgentInstanceState::Active,
        assigned_milestone: None,
        skills: Vec::new(),
    }
}

fn subtask(task_id: &str, title: &str, prompt: &str) -> OrchestratorSubtask {
    OrchestratorSubtask {
        task_id: task_id.to_string(),
        agent_instance: None,
        title: title.to_string(),
        agent: "worker".to_string(),
        adapter: "codex-exec".to_string(),
        prompt: prompt.to_string(),
        mode: None,
        forked_from_thread_id: None,
        cwd: None,
        output_schema_path: None,
    }
}

#[test]
fn enforces_max_concurrent_agents() {
    let orchestrator = Orchestrator::new("/ws".to_string());
    let config = TaskConfig { max_concurrent_agents: 2, timeout_seconds: 1, auto_approve: false };
    let created = orchestrator.create_task(request("test", Some(config)), now()).unwrap();
    let mut task = created.task;
    let log = vec![created.event];

    task.roster.push(worker("a1"));
    task.roster.push(worker("a2"));
    let alive = Observation { final_text: None, pid_alive: Some(true) };
    let seen = vec![alive.clone(), alive];

    let reconciled = orchestrator.subagent_list(task, &log, &seen, now());
    let limit = reconciled.task.config.max_concurrent_agents;
    let err = admit_spawn(&reconciled.subagents, limit, "a3", "worker", false).unwrap_err();
    assert!(matches!(err, OrchestratorError::ConcurrencyLimit { .. }));
    assert_eq!(err, OrchestratorError::ConcurrencyLimit { active: 2, limit: 2 });
}

#[test]
fn cancel_appends_cancelled_event() {
    let orchestrator = Orchestrator::new("/ws".to_string());
    let created = orchestrator.create_task(request("test", None), now()).unwrap();
    let mut task = created.task;
    let mut log = vec![created.event];
    task.roster.push(worker("a1"));

    let cancelled = finish_cancel(task, &log, "a1", now()).unwrap();
    log.extend(cancelled.events);
    assert!(cancelled.changed);
    assert_eq!(cancelled.task.roster[0].state, AgentInstanceState::Failed);

    let events = select_events(log, Some("agent."), usize::MAX, 0);
    assert!(events
        .iter()
        .any(|e| e.event_type == "agent.cancelled" && e.agent_instance.as_deref() == Some("a1")));
    assert_eq!(events.len(), 1);
}

const MOCK_FINAL: &str = r#"{
  "status": "success",
  "summary": "mock success",
  "questions": [],
  "nextActions": []
}
"#;

#[test]
fn controller_loop_spawns_workers_writes_stateboard_and_joined_reports() {
    let orchestrator = Orchestrator::new("/ws".to_string());
    let created = orchestrator.create_task(request("controller loop test", None), now()).unwrap();
    let task_id = created.response.id.clone();
    let mut log = vec![created.event];

    let actions = OrchestratorActions {
        session_goal: "verify controller loop artifacts".to_string(),
        tasks: vec![subtask("t1", "task 1", "do thing 1"), subtask("t2", "task 2", "do thing 2")],
    };
    let mut opts = ControllerOptions::new("/ws");
    opts.codex_bin = "/ws/mock_codex.sh".to_string();
    opts.default_cwd = "/ws".to_string();

    let (mut task, changed) = set_task_state_working(created.task, now());
    assert!(changed);

    // What the workers have left behind, by agent.
    let mut finals = std::collections::BTreeMap::<String, String>::new();
    let mut board: Option<String> = None;
    let mut evidence_index = String::new();
    let mut states = Vec::new();

    let mut state = None;
    let mut event = ControllerEvent::Begin;
    let result = loop {
        let (next, action) = orchestrator.controller_run_actions(state, event);
        state = next;
        let entered = state.unwrap();
        states.push(entered.as_str());

        let seen = task
            .roster
            .iter()
            .map(|a| Observation { final_text: finals.get(&a.instance).cloned(), pid_alive: None })
            .collect::<Vec<_>>();
        let reconciled = orchestrator.subagent_list(task, &log, &seen, now());
        log.extend(reconciled.events);
        task = reconciled.task;
        let infos = reconciled.subagents;

        let goal = if states.len() == 1 { Some(actions.session_goal.as_str()) } else { None };
        log.push(controller_state_event(&task_id, entered, goal, now()));
        let joined = match &action {
            ControllerAction::Finish(result) => result.joined_summary.as_ref(),
            _ => None,
        };
        board = Some(write_state_board(&board, &task, entered, now(), &actions, &infos, joined));

        event = match action {
            ControllerAction::Dispatch => {
                for pending in pending_subtasks(&actions, &infos) {
                    let req = match orchestrator.dispatch_actions(&task_id, &pending, &opts) {
                        DispatchAction::SpawnBatch(req) => req,
                        other => panic!("a batch worker is expected, not {other:?}"),
                    };
                    assert_eq!(req.codex_bin, "/ws/mock_codex.sh");
                    assert_eq!(req.cwd, "/ws");
                    admit_spawn(&infos, 3, &req.agent_instance, &req.agent, false).unwrap();
                    let (next_task, started) = register_spawn(
                        task,
                        &req.agent_instance,
                        &req.agent,
                        &req.cwd,
                        "codex-exec",
                        "orchestrator",
                        now(),
                    );
                    task = next_task;
                    log.push(started);
                    finals.insert(req.agent_instance, MOCK_FINAL.to_string());
                }
                ControllerEvent::Dispatched
            }
            ControllerAction::Monitor => {
                let seen = task
                    .roster
                    .iter()
                    .map(|a| Observation {
                        final_text: finals.get(&a.instance).cloned(),
                        pid_alive: None,
                    })
                    .collect::<Vec<_>>();
                let reconciled = orchestrator.subagent_list(task, &log, &seen, now());
                log.extend(reconciled.events);
                task = reconciled.task;
                assert!(reconciled.subagents.iter().all(|a| a.status == SubagentStatus::Completed));
                assert_eq!(monitor_step(&actions, &reconciled.subagents), MonitorStep::Done);
                ControllerEvent::Settled(ControllerOutcome::Done)
            }
            ControllerAction::Join => {
                let texts = task
                    .roster
                    .iter()
                    .map(|a| finals.get(&a.instance).cloned())
                    .collect::<Vec<_>>();
                let report = orchestrator.task_join(&task, &texts, now()).unwrap();
                evidence_index = report.evidence_index;
                assert!(report.markdown.contains("mock success"));
                ControllerEvent::Joined(report.response)
            }
            ControllerAction::Finish(result) => break result,
            ControllerAction::Stay => panic!("the run left its course"),
        };
    };

    assert_eq!(result.outcome, ControllerOutcome::Done);
    assert!(result.joined_summary.is_some());
    assert_eq!(states, vec!["dispatching", "monitoring", "joining", "done"]);

    let state_board = board.unwrap();
    assert!(state_board.contains("sessionGoal: verify controller loop artifacts"));
    assert!(state_board.contains("controllerState: `done`"));
    assert!(state_board.contains("## Subtasks"));
    assert!(state_board.contains("- `t1` agent=`worker` adapter=`codex-exec` status=`completed` title=\"task 1\""));

    let joined = result.joined_summary.unwrap();
    assert!(joined.joined_summary_md.ends_with("/shared/reports/joined-summary.md"));

    let entries = parse(&evidence_index).unwrap();
    assert_eq!(entries.as_array().unwrap().len(), 2, "should emit one evidence entry per worker");

    let events = log.iter().map(event_line).collect::<String>();
    assert!(
        events.contains("\"type\":\"controller.state.changed\""),
        "controller state events should be appended"
    );
    assert_eq!(events.matches("\"type\":\"controller.state.changed\"").count(), 4);
    assert_eq!(events.matches("\"type\":\"agent.started\"").count(), 2);
    assert_eq!(events.matches("\"type\":\"agent.completed\"").count(), 2);
}

/// What the peer of the sessions below answers to a request.
fn peer_answer(line: &str) -> Option<String> {
    let msg = parse(line.trim())?;
    let id = to_text(msg.get("id")?);
    let method = msg.str_at("method")?.as_str();
    Some(match method {
        "initialize" => format!(r#"{{"id":{id},"result":{{"ok":true}}}}"#),
        "thread/start" => format!(r#"{{"id":{id},"result":{{"thread":{{"id":"thr_test"}}}}}}"#),
        "model/list" => format!(r#"{{"id":{id},"result":{{"data":[{{"id":"gpt-5"}}]}}}}"#),
        "config/read" => format!(r#"{{"id":{id},"result":{{"config":{{"foo":"bar"}}}}}}"#),
        other => format!(r#"{{"id":{id},"error":{{"message":"unknown method: {other}"}}}}"#),
    })
}

/// One request of a session: the frame is recorded, the peer answers, and the answer is
/// recorded and matched to the request by its identifier.
fn exchange(
    ids: &mut RequestIds,
    requests: &mut String,
    events: &mut String,
    method: &str,
    params: Option<agentmesh::json::Json>,
) -> Result<agentmesh::json::Json, agentmesh::error::CodexAppServerError> {
    let id = ids.allocate();
    let line = frame_line(&request_frame(id, method, params));
    requests.push_str(&line);
    let answer = peer_answer(&line).unwrap();
    let (recorded, inbound) = read_line(&answer).unwrap();
    events.push_str(&recorded);
    events.push('\n');
    let (answered, reply) = inbound.reply.unwrap();
    assert_eq!(answered, id);
    request_result(method, 5, RequestOutcome::Answered(reply))
}

#[test]
fn spawn_request_records_and_session_updates() {
    let mut ids = RequestIds::new();
    let mut requests = String::new();
    let mut events = String::new();

    let init = initialize_params("Coco", "0.1.0");
    exchange(&mut ids, &mut requests, &mut events, "initialize", Some(init)).unwrap();
    requests.push_str(&frame_line(&notification_frame("initialized", None)));
    exchange(&mut ids, &mut requests, &mut events, "model/list", None).unwrap();
    exchange(&mut ids, &mut requests, &mut events, "config/read", None).unwrap();
    let started = exchange(&mut ids, &mut requests, &mut events, "thread/start", None).unwrap();
    let thread_id = extract_thread_id_from_thread_result(&started).unwrap();
    assert_eq!(thread_id, "thr_test");

    let session = session_descriptor(
        "codex-app-server",
        ThreadIdField::Known(thread_id),
        None,
        "/tmp/ws",
        "./codex_home",
        true,
    );
    let session_content = to_pretty_text(&session);
    assert!(session_content.contains("\"threadId\": \"thr_test\""));

    assert!(requests.contains("\"method\":\"initialize\""));
    assert!(requests.contains("\"method\":\"model/list\""));
    assert!(requests.contains("\"method\":\"config/read\""));
    assert!(requests.contains("\"method\":\"thread/start\""));
    assert!(events.contains("\"result\""));
    assert_eq!(requests.lines().count(), 5);
    assert!(requests.starts_with("{\"id\":-1,"));

    let refused = exchange(&mut ids, &mut requests, &mut events, "nope", None).unwrap_err();
    assert_eq!(
        refused,
        agentmesh::error::CodexAppServerError::ServerError {
            method: "nope".to_string(),
            message: "unknown method: nope".to_string(),
        }
    );
    assert!(requests.ends_with("{\"id\":-5,\"method\":\"nope\"}\n"));
}

#[test]
fn adapter_start_sets_thread_id_and_records() {
    let mut ids = RequestIds::new();
    let mut requests = String::new();
    let mut events = String::new();

    let init = initialize_params("Coco", "0.1.0");
    exchange(&mut ids, &mut requests, &mut events, "initialize", Some(init)).unwrap();
    let started = exchange(&mut ids, &mut requests, &mut events, "thread/start", None).unwrap();
    let thread_id = extract_thread_id_from_thread_result(&started).ok();
    assert_eq!(thread_id.as_deref(), Some("thr_test"));

    let session = to_pretty_text(&session_descriptor(
        "codex-app-server",
        ThreadIdField::Known(thread_id.unwrap()),
        None,
        "/tmp/ws",
        "./codex_home",
        true,
    ));
    assert!(session.contains("\"threadId\": \"thr_test\""));
    assert!(matches!(
        request_result("thread/start", 5, RequestOutcome::Answered(Reply::Result(started))),
        Ok(_)
    ));
}

#[test]
fn the_store_reads_what_the_caller_found() {
    let orchestrator = Orchestrator::new("/ws".to_string());
    let store = orchestrator.store();
    let created = orchestrator.create_task(request("kept", None), now()).unwrap();
    let mut older = created.task.clone();
    older.id = "older".to_string();
    older.created_at = Timestamp { secs: 1_600_000_000, nanos: 0 };
    older.updated_at = Timestamp { secs: 1_600_000_000, nanos: 0 };

    let written = store.write_task(&created.task);
    assert_eq!(written.path, format!("/ws/.coco/tasks/{}/task.yaml", created.task.id));
    assert_eq!(store.read_task(&created.task.id, Some(&written.content), now()), Ok(created.task.clone()));
    assert_eq!(
        orchestrator.get_task("nope", None, now()),
        Err(TaskStoreError::TaskNotFound { task_id: "nope".to_string() })
    );
    assert!(matches!(store.read_task("x", Some("- 1\n- 2\n"), now()), Err(TaskStoreError::Yaml(_))));

    let entry = |name: &str, is_dir: bool, descriptor: Option<String>| FoundEntry {
        name: name.to_string(),
        is_dir,
        descriptor,
    };
    let entries = vec![
        entry("older", true, Some(store.write_task(&older).content)),
        entry(".hidden", true, Some("broken: [".to_string())),
        entry("placeholder", true, Some(written.content.clone())),
        entry("file", false, Some(written.content.clone())),
        entry("empty", true, None),
        entry(&created.task.id, true, Some(written.content.clone())),
    ];
    let listed = orchestrator.list_tasks(&entries, now()).unwrap();
    assert_eq!(listed, vec![created.task.clone(), created.task.clone(), older]);
    assert_eq!(store.list_tasks(&Vec::new(), now()), Ok(Vec::new()));
    let mut broken = entries.clone();
    broken.push(entry("bad", true, Some("broken: [".to_string())));
    assert!(matches!(store.list_tasks(&broken, now()), Err(TaskStoreError::Yaml(_))));

    let first = store.append_task_event(&created.task.id, &created.event);
    assert_eq!(first.path, format!("/ws/.coco/tasks/{}/events.jsonl", created.task.id));
    assert_eq!(first.content, event_line(&created.event));
    let second = controller_state_event(&created.task.id, agentmesh::controller::ControllerState::Done, None, now());
    let log = format!("{}\n{}", first.content, store.append_task_event(&created.task.id, &second).content);
    assert_eq!(
        store.read_task_events(Some(&log), None, usize::MAX, 0),
        Ok(vec![created.event.clone(), second.clone()])
    );
    assert_eq!(orchestrator.get_task_events(Some(&log), Some("controller."), 5, 0), Ok(vec![second]));
    assert_eq!(store.read_task_events(Some(&log), Some("task."), 5, 1), Ok(Vec::new()));
    assert_eq!(store.read_task_events(None, None, 5, 0), Ok(Vec::new()));
    assert!(matches!(store.read_task_events(Some("{}\n"), None, 5, 0), Err(TaskStoreError::Json(_))));
}

#[test]
fn a_spawn_is_planned_before_it_runs() {
    let orchestrator = Orchestrator::new("/ws".to_string());
    let req = SubagentSpawnRequest {
        task_id: "t1".to_string(),
        agent_instance: "w1".to_string(),
        agent: "coder".to_string(),
        prompt: "do it".to_string(),
        cwd: "/repo".to_string(),
        codex_bin: "codex".to_string(),
        output_schema_path: "/ws/schemas/worker-output.schema.json".to_string(),
    };
    let plan = orchestrator.subagent_spawn(&Vec::new(), 1, &req, false).unwrap();
    assert_eq!(plan.program, "codex");
    assert_eq!(plan.cwd, "/repo");
    assert_eq!(plan.layout.agent_dir, "/ws/.coco/tasks/t1/agents/w1");
    assert_eq!(
        plan.arguments,
        vec![
            "exec",
            "--json",
            "-C",
            "/repo",
            "--output-schema",
            "/ws/schemas/worker-output.schema.json",
            "--output-last-message",
            "/ws/.coco/tasks/t1/agents/w1/artifacts/final.json",
            "do it",
        ]
    );
    let session = parse(&plan.session_text).unwrap();
    assert_eq!(
        to_text(&session),
        r#"{"adapter":"codex-exec","vendorSession":{"tool":"codex","threadId":null,"cwd":"/repo","codexHome":"./codex_home"},"recording":{"events":"./runtime/events.jsonl","stderr":"./runtime/stderr.log"}}"#
    );

    assert_eq!(
        orchestrator.subagent_spawn(&Vec::new(), 1, &req, true),
        Err(OrchestratorError::SubagentAlreadyExists { agent_instance: "w1".to_string() })
    );
    assert_eq!(
        orchestrator.subagent_spawn(&Vec::new(), 0, &req, false),
        Err(OrchestratorError::ConcurrencyLimit { active: 0, limit: 0 })
    );
    let running = vec![SubagentInfo {
        agent_instance: "w0".to_string(),
        agent: "coder".to_string(),
        status: SubagentStatus::Running,
    }];
    assert_eq!(
        orchestrator.subagent_spawn(&running, 1, &req, false),
        Err(OrchestratorError::ConcurrencyLimit { active: 1, limit: 1 })
    );
    assert!(orchestrator.subagent_spawn(&running, 2, &req, false).is_ok());

    let config = TaskConfig { max_concurrent_agents: 3, timeout_seconds: 7, auto_approve: false };
    assert_eq!(orchestrator.subagent_wait_any(&config, None, &running, false), WaitStep::Poll);
    assert_eq!(
        orchestrator.subagent_wait_any(&config, None, &running, true),
        WaitStep::TimedOut(OrchestratorError::WaitAnyTimeout { timeout_seconds: 7 })
    );
    assert_eq!(
        orchestrator.subagent_wait_any(&config, Some(0), &running, true),
        WaitStep::TimedOut(OrchestratorError::WaitAnyTimeout { timeout_seconds: 0 })
    );
    assert!(matches!(
        orchestrator.subagent_wait_any(&config, Some(0), &Vec::new(), true),
        WaitStep::TimedOut(_)
    ));
}

#[test]
fn a_process_is_probed_only_where_it_decides() {
    let orchestrator = Orchestrator::new("/ws".to_string());
    let created = orchestrator.create_task(request("test", None), now()).unwrap();
    let mut task = created.task;
    task.roster.push(worker("a1"));
    let log = vec![created.event];
    assert!(probes_process(&log, "a1", None));
    assert!(probes_process(&log, "a1", Some("not json")));
    assert!(!probes_process(&log, "a1", Some(r#"{"status":"success"}"#)));
    assert!(!probes_process(&log, "a1", Some("{}")));

    let cancelled = orchestrator.subagent_cancel(task, &log, "a1", now()).unwrap();
    let mut log = log;
    log.extend(cancelled.events);
    assert!(!probes_process(&log, "a1", None));
    assert!(probes_process(&log, "a2", None));
    assert_eq!(
        orchestrator.subagent_cancel(cancelled.task.clone(), &log, "a9", now()),
        Err(OrchestratorError::SubagentNotFound { agent_instance: "a9".to_string() })
    );
    let again = orchestrator.subagent_cancel(cancelled.task, &log, "a1", now()).unwrap();
    assert!(again.events.is_empty());
    assert!(!again.changed);
}

#[test]
fn the_goal_is_announced_with_the_first_state() {
    let actions = OrchestratorActions { session_goal: "ship".to_string(), tasks: Vec::new() };
    let first = announcement("t1", agentmesh::controller::ControllerState::Dispatching, &actions, now());
    assert_eq!(to_text(&first.payload), r#"{"state":"dispatching","sessionGoal":"ship"}"#);
    assert_eq!(first.by.as_deref(), Some("controller"));
    assert_eq!(first.event_type, "controller.state.changed");
    let later = announcement("t1", agentmesh::controller::ControllerState::Monitoring, &actions, now());
    assert_eq!(to_text(&later.payload), r#"{"state":"monitoring"}"#);
    assert_eq!(
        later,
        controller_state_event("t1", agentmesh::controller::ControllerState::Monitoring, None, now())
    );
}

#[test]
fn a_persistent_agent_is_enrolled_once() {
    let orchestrator = Orchestrator::new("/ws".to_string());
    let created = orchestrator.create_task(request("test", None), now()).unwrap();
    let later = Timestamp { secs: 1_700_000_500, nanos: 0 };
    let (task, started) =
        ensure_agent_instance(created.task.clone(), "p1", "planner", "/repo", later).unwrap();
    assert_eq!(task.roster.len(), 1);
    assert_eq!(task.roster[0].instance, "p1");
    assert_eq!(task.roster[0].agent, "planner");
    assert_eq!(task.roster[0].state, AgentInstanceState::Active);
    assert_eq!(task.updated_at, later);
    assert_eq!(started.event_type, "agent.started");
    assert_eq!(started.by.as_deref(), Some("controller"));
    assert_eq!(started.agent_instance.as_deref(), Some("p1"));
    assert_eq!(
        to_text(&started.payload),
        r#"{"adapter":"codex-app-server","cwd":"/repo","agentInstance":"p1"}"#
    );
    assert_eq!(ensure_agent_instance(task, "p1", "planner", "/repo", later), None);
}

#[test]
fn an_update_never_moves_the_instant_back() {
    let orchestrator = Orchestrator::new("/ws".to_string());
    let created = orchestrator.create_task(request("test", None), now()).unwrap();
    assert_eq!(created.task.created_at, created.task.updated_at);
    let earlier = Timestamp { secs: 1_600_000_000, nanos: 5 };
    let later = Timestamp { secs: 1_700_000_000, nanos: 1 };
    assert_eq!(now().later_of(earlier), now());
    assert_eq!(now().later_of(later), later);
    assert_eq!(earlier.later_of(earlier), earlier);

    let (task, _) = register_spawn(created.task.clone(), "a1", "worker", "/", "codex-exec", "x", earlier);
    assert_eq!(task.updated_at, now());
    assert_eq!(task.created_at, now());
    let (task, _) = register_spawn(task, "a2", "worker", "/", "codex-exec", "x", later);
    assert_eq!(task.updated_at, later);

    let cancelled = finish_cancel(task.clone(), &Vec::new(), "a1", earlier).unwrap();
    assert!(cancelled.changed);
    assert_eq!(cancelled.task.updated_at, later);

    let (working, changed) = set_task_state_working(created.task.clone(), earlier);
    assert!(changed);
    assert_eq!(working.updated_at, now());

    let seen = vec![Observation { final_text: Some(r#"{"status":"success"}"#.to_string()), pid_alive: None }];
    let mut started = created.task.clone();
    started.roster.push(worker("a1"));
    let reconciled = orchestrator.subagent_list(started.clone(), &Vec::new(), &seen, earlier);
    assert!(reconciled.changed);
    assert_eq!(reconciled.task.updated_at, now());
    let reconciled = orchestrator.subagent_list(started, &Vec::new(), &seen, later);
    assert_eq!(reconciled.task.updated_at, later);
}
