//! The orchestrator of a workspace: creating tasks and reconciling their agents.

use uuid::Uuid;
use vstd::prelude::*;
use crate::codec::{task_state_name, topology_name};
use crate::error::TaskStoreError;
use crate::ids::{check_id, is_id_char, is_valid_id};
use crate::json::{empty_object, Json};
use crate::reconcile::{reconcile, reconciled, Observation, Reconciliation};
use crate::store::TaskStore;
use crate::task::{
    ClusterStatus, CreateTaskRequest, CreateTaskResponse, TaskConfig, TaskEvent, TaskEventV,
    TaskFile, TaskFileV, TaskState, TaskTopology, Timestamp,
};
use crate::text::{append_str, chars_of, copy_string, owned, string_of, views};

verus! {

/// The orchestrator of a workspace.
#[derive(Debug, Clone, PartialEq, Eq)]
pub struct Orchestrator {
    store: TaskStore,
}

/// A lower-case hexadecimal digit.
pub open spec fn is_lower_hex(c: char) -> bool {
    ('0' <= c <= '9') || ('a' <= c <= 'f')
}

/// Draws a random identifier.
///
/// Trusted: `Uuid::new_v4` draws a random UUID, and the `simple` form of a UUID prints
/// as 32 lower-case hexadecimal digits. Nothing is said of which digits they are. The
/// draw does not return where the system gives no random bytes; no argument decides
/// that.
#[verifier::external_body]
fn random_hex() -> (r: String)
    ensures
        r@.len() == 32,
        forall|i: int| 0 <= i < 32 ==> is_lower_hex(#[trigger] r@[i]),
{
    Uuid::new_v4().simple().to_string()
}

/// Makes the identifier of a new task: `task-` and 32 random hexadecimal digits.
pub fn generate_task_id() -> (r: String)
    ensures
        is_valid_id(r@),
        r@.len() == 37,
        r@.take(5) == "task-"@,
        forall|i: int| 5 <= i < 37 ==> is_lower_hex(#[trigger] r@[i]),
{
    let hex = random_hex();
    let mut out = chars_of("task-");
    append_str(&mut out, hex.as_str());
    proof {
        reveal_strlit("task-");
        assert(out@.take(5) =~= "task-"@);
        assert forall|i: int| 0 <= i < out@.len() implies is_id_char(#[trigger] out@[i]) by {
            if i >= 5 {
                assert(out@[i] == hex@[i - 5]);
                assert(is_lower_hex(hex@[i - 5]));
            }
        }
        assert forall|i: int| 5 <= i < 37 implies is_lower_hex(#[trigger] out@[i]) by {
            assert(out@[i] == hex@[i - 5]);
        }
    }
    string_of(&out)
}

/// The name of a topology.
pub fn format_task_topology(topology: TaskTopology) -> (r: &'static str)
    ensures
        r@ == topology_name(topology),
{
    match topology {
        TaskTopology::Swarm => "swarm",
        TaskTopology::Squad => "squad",
    }
}

/// The name of a task state.
pub fn format_task_state(state: TaskState) -> (r: &'static str)
    ensures
        r@ == task_state_name(state),
{
    match state {
        TaskState::Created => "created",
        TaskState::Working => "working",
        TaskState::InputRequired => "input-required",
        TaskState::Completed => "completed",
        TaskState::Failed => "failed",
        TaskState::Canceled => "canceled",
    }
}

/// A file that belongs to the scaffold of a new task. Its path is relative to the
/// directory of the task, and it is written only where no such file exists.
#[derive(Debug, Clone, PartialEq, Eq)]
pub struct ScaffoldFile {
    pub path: String,
    pub content: String,
}

/// The view of a [`ScaffoldFile`].
pub struct ScaffoldFileV {
    pub path: Seq<char>,
    pub content: Seq<char>,
}

impl View for ScaffoldFile {
    type V = ScaffoldFileV;

    open spec fn view(&self) -> ScaffoldFileV {
        ScaffoldFileV { path: self.path@, content: self.content@ }
    }
}

/// All that makes a new task: the answer for the caller, the descriptor, the
/// directories and files of its scaffold, and the first event of its log.
#[derive(Debug, Clone, PartialEq, Eq)]
pub struct TaskCreation {
    pub response: CreateTaskResponse,
    pub task: TaskFile,
    pub directories: Vec<String>,
    pub files: Vec<ScaffoldFile>,
    pub event: TaskEvent,
}

/// The descriptor of a task that was just created from a request.
pub open spec fn created_task(
    title: Seq<char>,
    description: Seq<char>,
    topology: TaskTopology,
    milestones: Seq<crate::task::MilestoneV>,
    roster: Seq<crate::task::AgentInstanceV>,
    config: Option<TaskConfig>,
    id: Seq<char>,
    now: Timestamp,
) -> TaskFileV {
    TaskFileV {
        id: id,
        title: title,
        description: description,
        topology: topology,
        state: TaskState::Created,
        created_at: now,
        updated_at: now,
        milestones: milestones,
        roster: roster,
        gates: Seq::empty(),
        config: match config {
            Some(c) => c,
            None => TaskConfig { max_concurrent_agents: 3, timeout_seconds: 3600, auto_approve: false },
        },
    }
}

/// The text of the file that introduces a task.
pub open spec fn readme_text(task: TaskFileV) -> Seq<char> {
    "# "@ + task.title + "\n\n- id: `"@ + task.id + "`\n- topology: `"@ + topology_name(task.topology)
        + "`\n- state: `"@ + task_state_name(task.state) + "`\n"@
}

/// The text of the file for the notes of a human.
pub open spec fn human_notes_text() -> Seq<char> {
    "# Human Notes\n\n- \u{5728}\u{8fd9}\u{91cc}\u{8bb0}\u{5f55}\u{4eba}\u{5de5}\u{8865}\u{5145}\u{3001}\u{7ea6}\u{675f}\u{4e0e}\u{7ea0}\u{9519}\u{3002}\n"@
}

/// The files of the scaffold of a task.
pub open spec fn scaffold_files(task: TaskFileV) -> Seq<ScaffoldFileV> {
    seq![
        ScaffoldFileV { path: "shared/human-notes.md"@, content: human_notes_text() },
        ScaffoldFileV { path: "shared/context-manifest.yaml"@, content: "attachments: []\n"@ },
        ScaffoldFileV { path: "shared/evidence/index.json"@, content: "[]\n"@ },
        ScaffoldFileV { path: "README.md"@, content: readme_text(task) },
    ]
}

/// The directories of the scaffold of a task.
pub open spec fn scaffold_directories() -> Seq<Seq<char>> {
    seq!["shared"@, "agents"@, "shared/evidence"@]
}

/// The first event of the log of a task.
pub open spec fn created_event_view(task_id: Seq<char>, now: Timestamp) -> TaskEventV {
    TaskEventV {
        ts: now,
        event_type: "task.created"@,
        task_id: task_id,
        agent_instance: None,
        turn_id: None,
        payload: empty_object(),
        by: Some("user"@),
        path: None,
    }
}

/// Writes the text of the file that introduces a task.
pub fn render_readme(task: &TaskFile) -> (r: String)
    ensures
        r@ == readme_text(task@),
{
    let mut out = chars_of("# ");
    append_str(&mut out, task.title.as_str());
    append_str(&mut out, "\n\n- id: `");
    append_str(&mut out, task.id.as_str());
    append_str(&mut out, "`\n- topology: `");
    append_str(&mut out, format_task_topology(task.topology));
    append_str(&mut out, "`\n- state: `");
    append_str(&mut out, format_task_state(task.state));
    append_str(&mut out, "`\n");
    string_of(&out)
}

/// Makes a new task with the identifier `task_id` from a request.
///
/// The identifier must follow the rule for identifiers, else the result is
/// `InvalidTaskId`. The new task is in the state `created`, was created and updated at
/// `now`, has the milestones and the roster of the request, no gates, and the settings of
/// the request or the default ones.
pub fn scaffold_task(req: CreateTaskRequest, task_id: String, now: Timestamp) -> (r: Result<
    TaskCreation,
    TaskStoreError,
>)
    ensures
        !is_valid_id(task_id@) ==> (r matches Err(TaskStoreError::InvalidTaskId { task_id: t })
            && t@ == task_id@),
        is_valid_id(task_id@) ==> (r matches Ok(c) && {
            &&& c.task@ == created_task(
                req.title@,
                req.description@,
                req.topology,
                views(req.milestones@),
                views(req.roster@),
                req.config,
                task_id@,
                now,
            )
            &&& c.response.id@ == task_id@
            &&& c.response.message@ == "Task created successfully"@
            &&& views(c.directories@) == scaffold_directories()
            &&& views(c.files@) == scaffold_files(c.task@)
            &&& c.event@ == created_event_view(task_id@, now)
        }),
{
    let id = chars_of(task_id.as_str());
    if !check_id(&id) {
        return Err(TaskStoreError::InvalidTaskId { task_id: task_id });
    }
    let config = match req.config {
        Some(c) => c,
        None => TaskConfig { max_concurrent_agents: 3, timeout_seconds: 3600, auto_approve: false },
    };
    let task = TaskFile {
        id: copy_string(&task_id),
        title: req.title,
        description: req.description,
        topology: req.topology,
        state: TaskState::Created,
        created_at: now,
        updated_at: now,
        milestones: req.milestones,
        roster: req.roster,
        gates: Vec::new(),
        config: config,
    };
    proof {
        assert(views(task.gates@) =~= Seq::<crate::task::GateV>::empty());
    }
    let mut directories: Vec<String> = Vec::new();
    directories.push(owned("shared"));
    directories.push(owned("agents"));
    directories.push(owned("shared/evidence"));
    let mut files: Vec<ScaffoldFile> = Vec::new();
    files.push(
        ScaffoldFile {
            path: owned("shared/human-notes.md"),
            content: owned(
                "# Human Notes\n\n- \u{5728}\u{8fd9}\u{91cc}\u{8bb0}\u{5f55}\u{4eba}\u{5de5}\u{8865}\u{5145}\u{3001}\u{7ea6}\u{675f}\u{4e0e}\u{7ea0}\u{9519}\u{3002}\n",
            ),
        },
    );
    files.push(
        ScaffoldFile {
            path: owned("shared/context-manifest.yaml"),
            content: owned("attachments: []\n"),
        },
    );
    files.push(ScaffoldFile { path: owned("shared/evidence/index.json"), content: owned("[]\n") });
    files.push(ScaffoldFile { path: owned("README.md"), content: render_readme(&task) });
    proof {
        assert(views(directories@) =~= scaffold_directories());
        assert(views(files@) =~= scaffold_files(task@));
    }
    let event = TaskEvent {
        ts: now,
        event_type: owned("task.created"),
        task_id: copy_string(&task_id),
        agent_instance: None,
        turn_id: None,
        payload: Json::object(),
        by: Some(owned("user")),
        path: None,
    };
    Ok(
        TaskCreation {
            response: CreateTaskResponse {
                id: task_id,
                message: owned("Task created successfully"),
            },
            task: task,
            directories: directories,
            files: files,
            event: event,
        },
    )
}

impl Orchestrator {
    /// The store of the workspace.
    pub closed spec fn store_view(self) -> TaskStore {
        self.store
    }

    /// The orchestrator of the workspace at `workspace_root`.
    pub fn new(workspace_root: String) -> (r: Self)
        ensures
            r.store_view().root() == workspace_root@,
    {
        Orchestrator { store: TaskStore::new(workspace_root) }
    }

    /// The root of the workspace.
    pub fn workspace_root(&self) -> (r: &str)
        ensures
            r@ == self.store_view().root(),
    {
        self.store.workspace_root()
    }

    /// The store of the workspace.
    pub fn store(&self) -> (r: &TaskStore)
        ensures
            *r == self.store_view(),
    {
        &self.store
    }

    /// The state of the installation: the orchestrator is online, no adapter is
    /// connected, no agent is active and eight are allowed.
    pub fn cluster_status(&self) -> (r: ClusterStatus)
        ensures
            r.orchestrator@ == "online"@,
            r.codex_adapter@ == "disconnected"@,
            r.active_agents == 0,
            r.max_agents == 8,
    {
        ClusterStatus {
            orchestrator: owned("online"),
            codex_adapter: owned("disconnected"),
            active_agents: 0,
            max_agents: 8,
        }
    }

    /// Makes a new task from a request, under a fresh random identifier.
    ///
    /// Whatever identifier is drawn, the task is made, and it is the task that
    /// `scaffold_task` makes for that identifier.
    pub fn create_task(&self, req: CreateTaskRequest, now: Timestamp) -> (r: Result<
        TaskCreation,
        TaskStoreError,
    >)
        ensures
            r matches Ok(c) && {
                &&& is_valid_id(c.task@.id)
                &&& c.task@.id.len() == 37
                &&& c.task@.id.take(5) == "task-"@
                &&& forall|i: int| 5 <= i < 37 ==> is_lower_hex(#[trigger] c.task@.id[i])
                &&& c.task@ == created_task(
                    req.title@,
                    req.description@,
                    req.topology,
                    views(req.milestones@),
                    views(req.roster@),
                    req.config,
                    c.task@.id,
                    now,
                )
                &&& c.response.id@ == c.task@.id
                &&& c.response.message@ == "Task created successfully"@
                &&& views(c.directories@) == scaffold_directories()
                &&& views(c.files@) == scaffold_files(c.task@)
                &&& c.event@ == created_event_view(c.task@.id, now)
            },
    {
        let id = generate_task_id();
        scaffold_task(req, id, now)
    }

    /// Reconciles the agents of a task and lists them with their status. See
    /// [`reconcile`].
    pub fn subagent_list(
        &self,
        task: TaskFile,
        log: &Vec<TaskEvent>,
        observations: &Vec<Observation>,
        now: Timestamp,
    ) -> (out: Reconciliation)
        ensures
            out.task@ == reconciled(task@, views(log@), views(observations@), now).task,
            views(out.events@) == reconciled(task@, views(log@), views(observations@), now).emitted,
            views(out.subagents@) == reconciled(
                task@,
                views(log@),
                views(observations@),
                now,
            ).infos,
            out.changed == reconciled(task@, views(log@), views(observations@), now).write,
    {
        reconcile(task, log, observations, now)
    }
}

} // verus!
