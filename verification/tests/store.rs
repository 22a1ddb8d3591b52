use agentmesh::codec::event_line;
use agentmesh::json::{parse, parse_yaml, to_pretty_text, to_text, to_yaml_text, Json};
use agentmesh::orchestrator::{
    format_task_state, format_task_topology, generate_task_id, scaffold_task, Orchestrator,
};
use agentmesh::error::TaskStoreError;
use agentmesh::paths::{agent_dir, join_path, path_to_portable_string, resolve_optional_path};
use agentmesh::store::{lists_entry, select_events, sort_tasks, TaskStore};
use agentmesh::task::{
    CreateTaskRequest, TaskConfig, TaskEvent, TaskFile, TaskState, TaskTopology, Timestamp,
};

fn request() -> CreateTaskRequest {
    CreateTaskRequest {
        title: "t".to_string(),
        description: String::new(),
        topology: TaskTopology::Swarm,
        milestones: Vec::new(),
        roster: Vec::new(),
        config: None,
    }
}

fn now() -> Timestamp {
    Timestamp { secs: 1_700_000_000, nanos: 0 }
}

#[test]
fn create_then_show() {
    let o = Orchestrator::new("/ws".to_string());
    let made = o.create_task(request(), now()).unwrap();
    let id = &made.response.id;
    assert_eq!(id.len(), 37);
    assert!(id.starts_with("task-"));
    assert!(id[5..].chars().all(|c| c.is_ascii_digit() || ('a'..='f').contains(&c)));
    assert_eq!(made.task.id, *id);
    assert_eq!(made.task.state, TaskState::Created);
    assert!(made.task.milestones.is_empty());
    assert!(made.task.roster.is_empty());
    assert!(made.task.gates.is_empty());
    assert_eq!(made.task.config, TaskConfig::default());
    assert_eq!(made.task.created_at, now());
    assert_eq!(made.task.updated_at, now());
    assert_eq!(made.response.message, "Task created successfully");
    let line = event_line(&made.event);
    assert_eq!(line.matches('\n').count(), 1);
    assert!(line.contains("\"type\":\"task.created\""));
    assert!(line.contains("\"by\":\"user\""));
    assert!(line.contains("\"payload\":{}"));
    let other = o.create_task(request(), now()).unwrap();
    assert_ne!(other.response.id, *id);
    assert_ne!(generate_task_id(), generate_task_id());
}

#[test]
fn create_task_scaffolds_human_notes_context_manifest_and_evidence_index() {
    let made = scaffold_task(request(), "task-abc".to_string(), now()).unwrap();
    assert_eq!(made.directories, vec!["shared", "agents", "shared/evidence"]);
    let paths: Vec<&str> = made.files.iter().map(|f| f.path.as_str()).collect();
    assert_eq!(
        paths,
        vec!["shared/human-notes.md", "shared/context-manifest.yaml", "shared/evidence/index.json", "README.md"]
    );
    assert!(made.files[0].content.starts_with("# Human Notes\n\n- "));
    assert_eq!(made.files[1].content, "attachments: []\n");
    let index = parse(&made.files[2].content).unwrap();
    assert!(index.as_array().unwrap().is_empty());
    assert_eq!(made.files[3].content, "# t\n\n- id: `task-abc`\n- topology: `swarm`\n- state: `created`\n");
}

#[test]
fn invalid_task_id_is_a_typed_error() {
    assert_eq!(
        scaffold_task(request(), "../x".to_string(), now()).unwrap_err(),
        TaskStoreError::InvalidTaskId { task_id: "../x".to_string() }
    );
    let mut req = request();
    req.config = Some(TaskConfig { max_concurrent_agents: 9, timeout_seconds: 1, auto_approve: true });
    assert_eq!(scaffold_task(req, "ok".to_string(), now()).unwrap().task.config.max_concurrent_agents, 9);
}

#[test]
fn store_paths_are_stable() {
    let store = TaskStore::new("/ws".to_string());
    assert_eq!(store.workspace_root(), "/ws");
    assert_eq!(store.tasks_dir(), "/ws/.coco/tasks");
    assert_eq!(store.task_dir("task-1"), "/ws/.coco/tasks/task-1");
    assert_eq!(store.task_file("task-1"), "/ws/.coco/tasks/task-1/task.yaml");
    assert_eq!(store.events_file("task-1"), "/ws/.coco/tasks/task-1/events.jsonl");
    assert_eq!(agent_dir("/ws/.coco/tasks/task-1", "w1"), "/ws/.coco/tasks/task-1/agents/w1");
    let o = Orchestrator::new("/ws/".to_string());
    assert_eq!(o.workspace_root(), "/ws/");
    assert_eq!(o.store().tasks_dir(), "/ws/.coco/tasks");
    let status = o.cluster_status();
    assert_eq!(status.orchestrator, "online");
    assert_eq!(status.codex_adapter, "disconnected");
    assert_eq!((status.active_agents, status.max_agents), (0, 8));
}

#[test]
fn paths_join_like_a_filesystem() {
    assert_eq!(join_path("/a", "b"), "/a/b");
    assert_eq!(join_path("/a/", "b"), "/a/b");
    assert_eq!(join_path("", "b"), "b");
    assert_eq!(join_path("/a", "/b"), "/b");
    assert_eq!(join_path("/a", ""), "/a/");
    assert_eq!(join_path("a", "b/c"), "a/b/c");
    assert_eq!(resolve_optional_path(&None, "/base"), "/base");
    assert_eq!(resolve_optional_path(&Some("  ".to_string()), "/base"), "/base");
    assert_eq!(resolve_optional_path(&Some("x".to_string()), "/base"), "/base/x");
    assert_eq!(resolve_optional_path(&Some("/abs".to_string()), "/base"), "/abs");
}

#[test]
fn portable_paths_are_relative_to_the_agent_directory() {
    assert_eq!(path_to_portable_string("/a/b", "/a/b/codex_home"), "./codex_home");
    assert_eq!(path_to_portable_string("/a/b/", "/a/b//c/./d/"), "./c/d");
    assert_eq!(path_to_portable_string("/a/b", "/a/b"), ".");
    assert_eq!(path_to_portable_string("/a/b", "/a/bc"), "/a/bc");
    assert_eq!(path_to_portable_string("/a/b", "/x/y"), "/x/y");
    assert_eq!(path_to_portable_string("a", "/a/b"), "/a/b");
    assert_eq!(path_to_portable_string("a", "a/b"), "./b");
    assert_eq!(path_to_portable_string("/a/b/c", "/a/b"), "/a/b");
}

#[test]
fn directory_entries_that_are_tasks() {
    assert!(lists_entry("task-1", true, true));
    assert!(!lists_entry("task-1", false, true));
    assert!(!lists_entry("task-1", true, false));
    assert!(!lists_entry(".hidden", true, true));
    assert!(lists_entry("placeholder", true, true));
    assert!(lists_entry("placeholder2", true, true));
}

fn task(id: &str, updated: i64) -> TaskFile {
    TaskFile {
        id: id.to_string(),
        title: String::new(),
        description: String::new(),
        topology: TaskTopology::Swarm,
        state: TaskState::Created,
        created_at: Timestamp { secs: 0, nanos: 0 },
        updated_at: Timestamp { secs: updated, nanos: 0 },
        milestones: Vec::new(),
        roster: Vec::new(),
        gates: Vec::new(),
        config: TaskConfig::default(),
    }
}

#[test]
fn tasks_are_listed_newest_first() {
    let sorted = sort_tasks(vec![task("a", 5), task("b", 9), task("c", 5), task("d", 1), task("e", 9)]);
    let ids: Vec<&str> = sorted.iter().map(|t| t.id.as_str()).collect();
    assert_eq!(ids, vec!["e", "b", "c", "a", "d"]);
    assert!(sort_tasks(Vec::new()).is_empty());
}

fn event(ty: &str) -> TaskEvent {
    TaskEvent {
        ts: Timestamp { secs: 0, nanos: 0 },
        event_type: ty.to_string(),
        task_id: "t".to_string(),
        agent_instance: None,
        turn_id: None,
        payload: Json::Null,
        by: None,
        path: None,
    }
}

#[test]
fn events_are_filtered_then_sliced() {
    let log: Vec<TaskEvent> =
        ["task.created", "agent.started", "gate.blocked", "agent.failed", "agent.blocked", "agents"]
            .iter()
            .map(|t| event(t))
            .collect();
    let types = |v: Vec<TaskEvent>| v.into_iter().map(|e| e.event_type).collect::<Vec<_>>();
    assert_eq!(
        types(select_events(log.clone(), Some("agent."), usize::MAX, 0)),
        vec!["agent.started", "agent.failed", "agent.blocked"]
    );
    assert_eq!(types(select_events(log.clone(), Some("agent."), 1, 1)), vec!["agent.failed"]);
    assert_eq!(types(select_events(log.clone(), Some("agent."), 5, 2)), vec!["agent.blocked"]);
    assert!(select_events(log.clone(), Some("agent."), 5, 3).is_empty());
    assert!(select_events(log.clone(), None, 0, 0).is_empty());
    assert_eq!(types(select_events(log.clone(), None, 2, 4)), vec!["agent.blocked", "agents"]);
    assert_eq!(select_events(log.clone(), Some(""), usize::MAX, usize::MAX).len(), 0);
    assert_eq!(select_events(log, Some(""), usize::MAX, 0).len(), 6);
}

#[test]
fn names_of_states() {
    assert_eq!(format_task_topology(TaskTopology::Swarm), "swarm");
    assert_eq!(format_task_topology(TaskTopology::Squad), "squad");
    assert_eq!(format_task_state(TaskState::InputRequired), "input-required");
    assert_eq!(format_task_state(TaskState::Canceled), "canceled");
}

#[test]
fn documents_keep_order_and_numbers() {
    let text = r#"{"z":1,"a":[true,null,-5,18446744073709551615,1.5e3,"s"],"m":{"k":"v"}}"#;
    let doc = parse(text).unwrap();
    assert_eq!(to_text(&doc), r#"{"z":1,"a":[true,null,-5,18446744073709551615,1500.0,"s"],"m":{"k":"v"}}"#);
    assert_eq!(doc.get("a").unwrap().as_array().unwrap()[2], Json::Int(-5));
    assert_eq!(doc.get("a").unwrap().as_array().unwrap()[3], Json::UInt(u64::MAX));
    assert_eq!(doc.get("a").unwrap().as_array().unwrap()[4], Json::Real("1500.0".to_string()));
    assert_eq!(doc.clone(), doc);
    assert!(parse("{").is_none());
    assert_eq!(to_pretty_text(&parse(r#"{"a":[1]}"#).unwrap()), "{\n  \"a\": [\n    1\n  ]\n}");
    let mut o = Json::object();
    o.set("b", Json::Int(1));
    o.set("a", Json::Int(2));
    o.set("b", Json::Int(3));
    o.set_default("a", Json::Int(9));
    o.set_default("c", Json::Null);
    assert_eq!(to_text(&o), r#"{"b":3,"a":2,"c":null}"#);
    let dup = Json::Object(vec![("k".to_string(), Json::Int(1)), ("k".to_string(), Json::Int(2))]);
    assert_eq!(dup.get("k"), Some(&Json::Int(1)));
    assert_eq!(to_yaml_text(&parse(r#"{"a":"x","b":[1,"2"]}"#).unwrap()), "a: x\nb:\n- 1\n- '2'\n");
    assert_eq!(parse_yaml("a: 1\nb: [x, 2.5]\n").map(|d| to_text(&d)).as_deref(), Some(r#"{"a":1,"b":["x",2.5]}"#));
}
