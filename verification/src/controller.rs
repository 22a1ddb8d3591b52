//! The controller: a declarative plan of subtasks, the order of its states, and the
//! decisions of dispatching and monitoring.
//!
//! The caller starts workers, waits and writes files as the decisions say.

use vstd::prelude::*;
use crate::error::OrchestratorError;
use crate::json::{empty_object, Json, JsonV};
use crate::orchestrator::Orchestrator;
use crate::paths::{joined, join_path2, resolve_optional_path, resolved_path};
use crate::reconcile::{SubagentInfo, SubagentInfoV, SubagentStatus};
use crate::supervisor::{is_known, knows_agent, SubagentSpawnRequest};
use crate::task::{TaskEvent, TaskEventV, TaskFile, TaskFileV, TaskState, Timestamp};
use crate::text::{
    chars_of, copy_opt_string, copy_string, lemma_views_push, opt_view, owned, string_is, views,
};

verus! {

/// The states of a controller run.
#[derive(Debug, Clone, Copy, PartialEq, Eq, Structural)]
pub enum ControllerState {
    Dispatching,
    Monitoring,
    Joining,
    Blocked,
    Done,
}

impl ControllerState {
    /// The name of the state.
    pub open spec fn name(self) -> Seq<char> {
        match self {
            ControllerState::Dispatching => "dispatching"@,
            ControllerState::Monitoring => "monitoring"@,
            ControllerState::Joining => "joining"@,
            ControllerState::Blocked => "blocked"@,
            ControllerState::Done => "done"@,
        }
    }

    /// The name of the state.
    pub fn as_str(&self) -> (r: &'static str)
        ensures
            r@ == self.name(),
    {
        match self {
            ControllerState::Dispatching => "dispatching",
            ControllerState::Monitoring => "monitoring",
            ControllerState::Joining => "joining",
            ControllerState::Blocked => "blocked",
            ControllerState::Done => "done",
        }
    }
}

/// How a controller run ended.
#[derive(Debug, Clone, Copy, PartialEq, Eq, Structural)]
pub enum ControllerOutcome {
    Done,
    Blocked,
}

/// The settings of a controller run.
#[derive(Debug, Clone, PartialEq, Eq)]
pub struct ControllerOptions {
    /// The program that runs a worker.
    pub codex_bin: String,
    /// The schema that the output of a worker follows.
    pub output_schema_path: String,
    /// The working directory of a worker whose subtask names none.
    pub default_cwd: String,
    /// The time between two looks at the agents, in milliseconds.
    pub poll_interval_ms: u64,
    /// The time to wait for any agent, in seconds; the one of the task where it is
    /// missing.
    pub timeout_seconds: Option<u32>,
}

impl ControllerOptions {
    /// The settings for a workspace: the program `codex`, the schema
    /// `schemas/worker-output.schema.json` below the workspace, the workspace as working
    /// directory, a poll interval of 250 milliseconds and the timeout of the task.
    pub fn new(workspace_root: &str) -> (r: Self)
        ensures
            r.codex_bin@ == "codex"@,
            r.output_schema_path@ == joined(
                joined(workspace_root@, "schemas"@),
                "worker-output.schema.json"@,
            ),
            r.default_cwd@ == workspace_root@,
            r.poll_interval_ms == 250,
            r.timeout_seconds is None,
    {
        ControllerOptions {
            codex_bin: owned("codex"),
            output_schema_path: join_path2(workspace_root, "schemas", "worker-output.schema.json"),
            default_cwd: owned(workspace_root),
            poll_interval_ms: 250,
            timeout_seconds: None,
        }
    }
}

/// Where the joined reports of a task were written.
#[derive(Debug, Clone, PartialEq, Eq)]
pub struct JoinTaskResponse {
    pub joined_summary_md: String,
    pub joined_summary_json: String,
}

/// What a controller run yields.
#[derive(Debug, Clone, PartialEq, Eq)]
pub struct ControllerRunResult {
    pub outcome: ControllerOutcome,
    pub joined_summary: Option<JoinTaskResponse>,
}

/// One subtask of a plan.
#[derive(Debug, Clone, PartialEq, Eq)]
pub struct OrchestratorSubtask {
    pub task_id: String,
    pub agent_instance: Option<String>,
    pub title: String,
    pub agent: String,
    pub adapter: String,
    pub prompt: String,
    pub mode: Option<String>,
    pub forked_from_thread_id: Option<String>,
    pub cwd: Option<String>,
    pub output_schema_path: Option<String>,
}

/// The view of an [`OrchestratorSubtask`].
pub struct OrchestratorSubtaskV {
    pub task_id: Seq<char>,
    pub agent_instance: Option<Seq<char>>,
    pub title: Seq<char>,
    pub agent: Seq<char>,
    pub adapter: Seq<char>,
    pub prompt: Seq<char>,
    pub mode: Option<Seq<char>>,
    pub forked_from_thread_id: Option<Seq<char>>,
    pub cwd: Option<Seq<char>>,
    pub output_schema_path: Option<Seq<char>>,
}

impl OrchestratorSubtaskV {
    /// The name of the agent that runs the subtask: the one it names, else its own
    /// identifier.
    pub open spec fn resolved_instance(self) -> Seq<char> {
        match self.agent_instance {
            Some(a) => a,
            None => self.task_id,
        }
    }
}

impl View for OrchestratorSubtask {
    type V = OrchestratorSubtaskV;

    open spec fn view(&self) -> OrchestratorSubtaskV {
        OrchestratorSubtaskV {
            task_id: self.task_id@,
            agent_instance: opt_view(self.agent_instance),
            title: self.title@,
            agent: self.agent@,
            adapter: self.adapter@,
            prompt: self.prompt@,
            mode: opt_view(self.mode),
            forked_from_thread_id: opt_view(self.forked_from_thread_id),
            cwd: opt_view(self.cwd),
            output_schema_path: opt_view(self.output_schema_path),
        }
    }
}

impl OrchestratorSubtask {
    /// The name of the agent that runs the subtask.
    pub fn resolved_agent_instance(&self) -> (r: String)
        ensures
            r@ == self@.resolved_instance(),
    {
        match &self.agent_instance {
            Some(a) => copy_string(a),
            None => copy_string(&self.task_id),
        }
    }

    /// A copy of the subtask.
    pub fn copy(&self) -> (r: OrchestratorSubtask)
        ensures
            r@ == self@,
    {
        OrchestratorSubtask {
            task_id: copy_string(&self.task_id),
            agent_instance: copy_opt_string(&self.agent_instance),
            title: copy_string(&self.title),
            agent: copy_string(&self.agent),
            adapter: copy_string(&self.adapter),
            prompt: copy_string(&self.prompt),
            mode: copy_opt_string(&self.mode),
            forked_from_thread_id: copy_opt_string(&self.forked_from_thread_id),
            cwd: copy_opt_string(&self.cwd),
            output_schema_path: copy_opt_string(&self.output_schema_path),
        }
    }
}

/// A plan: what the session is for, and its subtasks in the order of dispatch.
#[derive(Debug, Clone, PartialEq, Eq)]
pub struct OrchestratorActions {
    pub session_goal: String,
    pub tasks: Vec<OrchestratorSubtask>,
}

/// The view of an [`OrchestratorActions`].
pub struct OrchestratorActionsV {
    pub session_goal: Seq<char>,
    pub tasks: Seq<OrchestratorSubtaskV>,
}

impl View for OrchestratorActions {
    type V = OrchestratorActionsV;

    open spec fn view(&self) -> OrchestratorActionsV {
        OrchestratorActionsV { session_goal: self.session_goal@, tasks: views(self.tasks@) }
    }
}

/// What happened in a controller run.
#[derive(Debug, Clone, PartialEq, Eq)]
pub enum ControllerEvent {
    /// The run begins.
    Begin,
    /// Every subtask was dispatched.
    Dispatched,
    /// Monitoring ended with the given outcome.
    Settled(ControllerOutcome),
    /// The reports were joined and written.
    Joined(JoinTaskResponse),
}

/// What the caller of a controller run does next. With every action but `Stay` the run
/// enters a new state, which the caller announces in the event log and on the state
/// board before it acts.
#[derive(Debug, Clone, PartialEq, Eq)]
pub enum ControllerAction {
    /// Dispatch the subtasks of the plan.
    Dispatch,
    /// Monitor the agents of the plan until none is running or one is blocked.
    Monitor,
    /// Join the outputs of the agents.
    Join,
    /// The run is over with this result.
    Finish(ControllerRunResult),
    /// The event does not belong to the state: nothing changes.
    Stay,
}

/// The state that follows `state` on `event`, if the event belongs to the state. A run
/// begins dispatching, monitors next, then is blocked or joins, and is done after
/// joining.
pub open spec fn next_controller_state(state: Option<ControllerState>, event: ControllerEvent)
    -> Option<ControllerState> {
    match (state, event) {
        (None, ControllerEvent::Begin) => Some(ControllerState::Dispatching),
        (Some(ControllerState::Dispatching), ControllerEvent::Dispatched) => Some(
            ControllerState::Monitoring,
        ),
        (Some(ControllerState::Monitoring), ControllerEvent::Settled(ControllerOutcome::Blocked)) =>
            Some(ControllerState::Blocked),
        (Some(ControllerState::Monitoring), ControllerEvent::Settled(ControllerOutcome::Done)) =>
            Some(ControllerState::Joining),
        (Some(ControllerState::Joining), ControllerEvent::Joined(_)) => Some(ControllerState::Done),
        _ => None,
    }
}

impl Orchestrator {
/// One step of a controller run: the state to enter and what to do in it.
pub fn controller_run_actions(&self, state: Option<ControllerState>, event: ControllerEvent) -> (r: (
    Option<ControllerState>,
    ControllerAction,
))
    ensures
        match next_controller_state(state, event) {
            Some(next) => r.0 == Some(next) && match next {
                ControllerState::Dispatching => r.1 == ControllerAction::Dispatch,
                ControllerState::Monitoring => r.1 == ControllerAction::Monitor,
                ControllerState::Joining => r.1 == ControllerAction::Join,
                ControllerState::Blocked => r.1 == ControllerAction::Finish(
                    ControllerRunResult {
                        outcome: ControllerOutcome::Blocked,
                        joined_summary: None,
                    },
                ),
                ControllerState::Done => event matches ControllerEvent::Joined(j) && r.1
                    == ControllerAction::Finish(
                    ControllerRunResult {
                        outcome: ControllerOutcome::Done,
                        joined_summary: Some(j),
                    },
                ),
            },
            None => r.0 == state && r.1 == ControllerAction::Stay,
        },
{
    match state {
        None => match event {
            ControllerEvent::Begin => (Some(ControllerState::Dispatching), ControllerAction::Dispatch),
            _ => (state, ControllerAction::Stay),
        },
        Some(ControllerState::Dispatching) => match event {
            ControllerEvent::Dispatched => (
                Some(ControllerState::Monitoring),
                ControllerAction::Monitor,
            ),
            _ => (state, ControllerAction::Stay),
        },
        Some(ControllerState::Monitoring) => match event {
            ControllerEvent::Settled(ControllerOutcome::Blocked) => (
                Some(ControllerState::Blocked),
                ControllerAction::Finish(
                    ControllerRunResult {
                        outcome: ControllerOutcome::Blocked,
                        joined_summary: None,
                    },
                ),
            ),
            ControllerEvent::Settled(ControllerOutcome::Done) => (
                Some(ControllerState::Joining),
                ControllerAction::Join,
            ),
            _ => (state, ControllerAction::Stay),
        },
        Some(ControllerState::Joining) => match event {
            ControllerEvent::Joined(j) => (
                Some(ControllerState::Done),
                ControllerAction::Finish(
                    ControllerRunResult { outcome: ControllerOutcome::Done, joined_summary: Some(j) },
                ),
            ),
            _ => (state, ControllerAction::Stay),
        },
        Some(ControllerState::Blocked) => (state, ControllerAction::Stay),
        Some(ControllerState::Done) => (state, ControllerAction::Stay),
    }
}
}

/// The descriptor of a task that a controller run takes up: a created task is working
/// and was updated at `now`, or at the instant on record where that is later; any other
/// task stays as it is.
pub fn set_task_state_working(task: TaskFile, now: Timestamp) -> (r: (TaskFile, bool))
    ensures
        r.1 == (task.state == TaskState::Created),
        r.0@ == if task.state == TaskState::Created {
            TaskFileV { state: TaskState::Working, updated_at: task@.updated_at.later(now), ..task@ }
        } else {
            task@
        },
{
    let mut task = task;
    if task.state == TaskState::Created {
        task.state = TaskState::Working;
        task.updated_at = task.updated_at.later_of(now);
        (task, true)
    } else {
        (task, false)
    }
}

/// The payload of the event that announces a state of the controller.
pub open spec fn controller_payload(state: ControllerState, goal: Option<Seq<char>>) -> JsonV {
    match goal {
        Some(g) => empty_object().with("state"@, JsonV::Str(state.name())).with(
            "sessionGoal"@,
            JsonV::Str(g),
        ),
        None => empty_object().with("state"@, JsonV::Str(state.name())),
    }
}

/// The event that announces a state of the controller.
pub open spec fn controller_event_view(
    task_id: Seq<char>,
    state: ControllerState,
    goal: Option<Seq<char>>,
    now: Timestamp,
) -> TaskEventV {
    TaskEventV {
        ts: now,
        event_type: "controller.state.changed"@,
        task_id: task_id,
        agent_instance: None,
        turn_id: None,
        payload: controller_payload(state, goal),
        by: Some("controller"@),
        path: None,
    }
}

/// Builds the event that announces a state of the controller.
pub fn controller_state_event(
    task_id: &str,
    state: ControllerState,
    session_goal: Option<&str>,
    now: Timestamp,
) -> (e: TaskEvent)
    ensures
        e@ == controller_event_view(
            task_id@,
            state,
            match session_goal {
                Some(g) => Some(g@),
                None => None,
            },
            now,
        ),
{
    let mut payload = Json::object();
    payload.set("state", Json::string(state.as_str()));
    match session_goal {
        Some(g) => {
            payload.set("sessionGoal", Json::string(g));
        },
        None => {},
    }
    TaskEvent {
        ts: now,
        event_type: owned("controller.state.changed"),
        task_id: owned(task_id),
        agent_instance: None,
        turn_id: None,
        payload: payload,
        by: Some(owned("controller")),
        path: None,
    }
}

/// The subtasks among the first `n` whose agent is not in the roster yet, in order.
pub open spec fn pending_among(
    tasks: Seq<OrchestratorSubtaskV>,
    infos: Seq<SubagentInfoV>,
    n: int,
) -> Seq<OrchestratorSubtaskV>
    decreases n,
{
    if n <= 0 || n > tasks.len() {
        Seq::empty()
    } else if is_known(infos, tasks[n - 1].resolved_instance()) {
        pending_among(tasks, infos, n - 1)
    } else {
        pending_among(tasks, infos, n - 1).push(tasks[n - 1])
    }
}

/// The subtasks that are still to be dispatched: those whose agent is not in the roster.
pub fn pending_subtasks(actions: &OrchestratorActions, infos: &Vec<SubagentInfo>) -> (out: Vec<
    OrchestratorSubtask,
>)
    ensures
        views(out@) == pending_among(views(actions.tasks@), views(infos@), actions.tasks.len() as int),
{
    let mut out: Vec<OrchestratorSubtask> = Vec::new();
    proof {
        assert(views(out@) =~= Seq::<OrchestratorSubtaskV>::empty());
    }
    let mut i: usize = 0;
    while i < actions.tasks.len()
        invariant
            i <= actions.tasks.len(),
            views(out@) == pending_among(views(actions.tasks@), views(infos@), i as int),
        decreases actions.tasks.len() - i,
    {
        let t = &actions.tasks[i];
        let instance = chars_of(t.resolved_agent_instance().as_str());
        if !knows_agent(infos, &instance) {
            let c = t.copy();
            proof {
                lemma_views_push(out@, c);
            }
            out.push(c);
        }
        i += 1;
    }
    out
}

/// How a subtask is dispatched.
#[derive(Debug, Clone, PartialEq, Eq)]
pub enum DispatchAction {
    /// Start a batch worker with this request.
    SpawnBatch(SubagentSpawnRequest),
    /// Run one turn of a persistent worker for the subtask.
    RunPersistent,
    /// The adapter of the subtask is not known.
    Fail(OrchestratorError),
}

/// The request that starts the batch worker of a subtask: the agent is the resolved one
/// of the subtask, its working directory and schema are resolved against the default
/// working directory, and a subtask without a schema takes the one of the settings.
pub open spec fn batch_request_view(
    task_id: Seq<char>,
    subtask: OrchestratorSubtaskV,
    opts: ControllerOptions,
) -> SpawnRequestV {
    SpawnRequestV {
        task_id: task_id,
        agent_instance: subtask.resolved_instance(),
        agent: subtask.agent,
        prompt: subtask.prompt,
        cwd: resolved_path(subtask.cwd, opts.default_cwd@),
        codex_bin: opts.codex_bin@,
        output_schema_path: match subtask.output_schema_path {
            Some(p) => resolved_path(Some(p), opts.default_cwd@),
            None => opts.output_schema_path@,
        },
    }
}

/// The view of a [`SubagentSpawnRequest`].
pub struct SpawnRequestV {
    pub task_id: Seq<char>,
    pub agent_instance: Seq<char>,
    pub agent: Seq<char>,
    pub prompt: Seq<char>,
    pub cwd: Seq<char>,
    pub codex_bin: Seq<char>,
    pub output_schema_path: Seq<char>,
}

/// The view of a request to start a batch worker.
pub open spec fn spawn_request_view(r: SubagentSpawnRequest) -> SpawnRequestV {
    SpawnRequestV {
        task_id: r.task_id@,
        agent_instance: r.agent_instance@,
        agent: r.agent@,
        prompt: r.prompt@,
        cwd: r.cwd@,
        codex_bin: r.codex_bin@,
        output_schema_path: r.output_schema_path@,
    }
}

impl Orchestrator {
/// Builds the request that starts the batch worker of a subtask.
pub fn dispatch_codex_exec(&self, task_id: &str, subtask: &OrchestratorSubtask, opts: &ControllerOptions)
    -> (r: SubagentSpawnRequest)
    ensures
        spawn_request_view(r) == batch_request_view(task_id@, subtask@, *opts),
{
    let schema = match &subtask.output_schema_path {
        Some(p) => resolve_optional_path(&Some(copy_string(p)), opts.default_cwd.as_str()),
        None => copy_string(&opts.output_schema_path),
    };
    SubagentSpawnRequest {
        task_id: owned(task_id),
        agent_instance: subtask.resolved_agent_instance(),
        agent: copy_string(&subtask.agent),
        prompt: copy_string(&subtask.prompt),
        cwd: resolve_optional_path(&subtask.cwd, opts.default_cwd.as_str()),
        codex_bin: copy_string(&opts.codex_bin),
        output_schema_path: schema,
    }
}

/// Decides how a subtask is dispatched, by its adapter: `codex-exec` starts a batch
/// worker, `codex-app-server` runs one turn of a persistent worker, and any other adapter
/// is an error that names it.
pub fn dispatch_actions(&self, task_id: &str, subtask: &OrchestratorSubtask, opts: &ControllerOptions)
    -> (r: DispatchAction)
    ensures
        subtask.adapter@ == "codex-exec"@ ==> (r matches DispatchAction::SpawnBatch(req)
            && spawn_request_view(req) == batch_request_view(task_id@, subtask@, *opts)),
        subtask.adapter@ != "codex-exec"@ && subtask.adapter@ == "codex-app-server"@ ==> r
            is RunPersistent,
        subtask.adapter@ != "codex-exec"@ && subtask.adapter@ != "codex-app-server"@ ==> (
        r matches DispatchAction::Fail(OrchestratorError::UnsupportedAdapter { adapter })
            && adapter@ == subtask.adapter@),
{
    let batch = chars_of("codex-exec");
    let persistent = chars_of("codex-app-server");
    if string_is(&subtask.adapter, &batch) {
        DispatchAction::SpawnBatch(self.dispatch_codex_exec(task_id, subtask, opts))
    } else if string_is(&subtask.adapter, &persistent) {
        DispatchAction::RunPersistent
    } else {
        DispatchAction::Fail(
            OrchestratorError::UnsupportedAdapter { adapter: copy_string(&subtask.adapter) },
        )
    }
}
}

/// What follows an attempt to start a batch worker.
#[derive(Debug, Clone, PartialEq, Eq)]
pub enum AfterSpawn {
    /// The worker runs: go on with the next subtask.
    Advance,
    /// Too many agents are running: wait for any of them, then try this subtask again.
    WaitAndRetry,
    /// The dispatch ends with this error.
    Abort(OrchestratorError),
}

/// Decides what follows an attempt to start a batch worker: a concurrency limit is a
/// reason to wait and try again, any other error ends the dispatch.
pub fn after_spawn(result: Result<(), OrchestratorError>) -> (r: AfterSpawn)
    ensures
        match result {
            Ok(()) => r == AfterSpawn::Advance,
            Err(OrchestratorError::ConcurrencyLimit { .. }) => r == AfterSpawn::WaitAndRetry,
            Err(e) => r == AfterSpawn::Abort(e),
        },
{
    match result {
        Ok(()) => AfterSpawn::Advance,
        Err(OrchestratorError::ConcurrencyLimit { .. }) => AfterSpawn::WaitAndRetry,
        Err(e) => AfterSpawn::Abort(e),
    }
}

/// The agent `instance` runs a subtask of the plan.
pub open spec fn is_expected(tasks: Seq<OrchestratorSubtaskV>, instance: Seq<char>) -> bool {
    exists|i: int| 0 <= i < tasks.len() && #[trigger] tasks[i].resolved_instance() == instance
}

/// An agent of the plan is blocked.
pub open spec fn any_expected_blocked(
    tasks: Seq<OrchestratorSubtaskV>,
    infos: Seq<SubagentInfoV>,
) -> bool {
    exists|i: int|
        0 <= i < infos.len() && is_expected(tasks, #[trigger] infos[i].agent_instance) && infos[i].status
            == SubagentStatus::Blocked
}

/// An agent of the plan is running.
pub open spec fn any_expected_running(
    tasks: Seq<OrchestratorSubtaskV>,
    infos: Seq<SubagentInfoV>,
) -> bool {
    exists|i: int|
        0 <= i < infos.len() && is_expected(tasks, #[trigger] infos[i].agent_instance) && infos[i].status
            == SubagentStatus::Running
}

/// What monitoring does next.
#[derive(Debug, Clone, Copy, PartialEq, Eq, Structural)]
pub enum MonitorStep {
    /// An agent of the plan is blocked: monitoring ends.
    Blocked,
    /// No agent of the plan is running: monitoring ends.
    Done,
    /// Wait for any agent, sleep for the poll interval and look again.
    Wait,
}

/// Tells whether the agent `instance` runs a subtask of the plan.
pub fn expects_agent(actions: &OrchestratorActions, instance: &Vec<char>) -> (r: bool)
    ensures
        r == is_expected(views(actions.tasks@), instance@),
{
    let mut i: usize = 0;
    while i < actions.tasks.len()
        invariant
            i <= actions.tasks.len(),
            forall|j: int|
                0 <= j < i ==> (#[trigger] views(actions.tasks@)[j]).resolved_instance()
                    != instance@,
        decreases actions.tasks.len() - i,
    {
        let name = actions.tasks[i].resolved_agent_instance();
        if string_is(&name, instance) {
            proof {
                assert(views(actions.tasks@)[i as int].resolved_instance() == instance@);
            }
            return true;
        }
        i += 1;
    }
    false
}

/// Decides the next step of monitoring from the reconciled agents, looking only at the
/// agents of the plan: a blocked one ends it as blocked, else a running one keeps it
/// waiting, else it is done.
pub fn monitor_step(actions: &OrchestratorActions, infos: &Vec<SubagentInfo>) -> (r: MonitorStep)
    ensures
        r == if any_expected_blocked(views(actions.tasks@), views(infos@)) {
            MonitorStep::Blocked
        } else if any_expected_running(views(actions.tasks@), views(infos@)) {
            MonitorStep::Wait
        } else {
            MonitorStep::Done
        },
{
    let mut any_blocked = false;
    let mut any_running = false;
    let ghost tasks = views(actions.tasks@);
    let ghost iv = views(infos@);
    let mut i: usize = 0;
    while i < infos.len()
        invariant
            i <= infos.len(),
            tasks == views(actions.tasks@),
            iv == views(infos@),
            any_blocked == (exists|j: int|
                0 <= j < i && is_expected(tasks, #[trigger] iv[j].agent_instance) && iv[j].status
                    == SubagentStatus::Blocked),
            any_running == (exists|j: int|
                0 <= j < i && is_expected(tasks, #[trigger] iv[j].agent_instance) && iv[j].status
                    == SubagentStatus::Running),
        decreases infos.len() - i,
    {
        let s = &infos[i];
        let name = chars_of(s.agent_instance.as_str());
        proof {
            assert(iv[i as int].agent_instance == name@);
        }
        if expects_agent(actions, &name) {
            match s.status {
                SubagentStatus::Running => {
                    any_running = true;
                },
                SubagentStatus::Blocked => {
                    any_blocked = true;
                },
                _ => {},
            }
        }
        i += 1;
    }
    if any_blocked {
        MonitorStep::Blocked
    } else if any_running {
        MonitorStep::Wait
    } else {
        MonitorStep::Done
    }
}

/// Builds the event that announces a state of a run of a plan. The goal of the session
/// is told once, with the first state of the run.
pub fn announcement(
    task_id: &str,
    state: ControllerState,
    actions: &OrchestratorActions,
    now: Timestamp,
) -> (e: TaskEvent)
    ensures
        e@ == controller_event_view(
            task_id@,
            state,
            if state is Dispatching {
                Some(actions.session_goal@)
            } else {
                None
            },
            now,
        ),
{
    match state {
        ControllerState::Dispatching => controller_state_event(
            task_id,
            state,
            Some(actions.session_goal.as_str()),
            now,
        ),
        _ => controller_state_event(task_id, state, None, now),
    }
}

/// Makes sure that the agent of a subtask that runs as one turn of a persistent worker
/// is in the roster. Where it is, nothing is to be written; where it is not, the result
/// is the descriptor with the agent as active and the event of its start, issued by the
/// controller.
pub fn ensure_agent_instance(
    task: TaskFile,
    agent_instance: &str,
    agent: &str,
    cwd: &str,
    now: Timestamp,
) -> (r: Option<(TaskFile, TaskEvent)>)
    ensures
        crate::supervisor::roster_index(task@.roster, agent_instance@, 0) < task@.roster.len()
            ==> r is None,
        crate::supervisor::roster_index(task@.roster, agent_instance@, 0) == task@.roster.len()
            ==> (r matches Some((t, e)) && t@ == crate::supervisor::with_started_agent(
            task@,
            agent_instance@,
            agent@,
            now,
        ) && e@ == (TaskEventV {
            by: Some("controller"@),
            ..crate::reconcile::agent_event_view(
                task@.id,
                agent_instance@,
                "agent.started"@,
                crate::supervisor::started_payload(cwd@, "codex-app-server"@),
                now,
            )
        })),
{
    let name = chars_of(agent_instance);
    match crate::supervisor::find_in_roster(&task.roster, &name) {
        Some(_) => None,
        None => Some(
            crate::supervisor::register_spawn(
                task,
                agent_instance,
                agent,
                cwd,
                "codex-app-server",
                "controller",
                now,
            ),
        ),
    }
}

/// The schema that the output of workers follows: the one of the workspace, where the
/// caller found it there; else the one below the current directory, or below `.` where
/// that is unknown.
pub fn default_output_schema_path(
    workspace_root: &str,
    found_in_workspace: bool,
    current_dir: Option<&str>,
) -> (r: String)
    ensures
        r@ == joined(
            joined(
                if found_in_workspace {
                    workspace_root@
                } else {
                    match current_dir {
                        Some(d) => d@,
                        None => "."@,
                    }
                },
                "schemas"@,
            ),
            "worker-output.schema.json"@,
        ),
{
    let base: &str = if found_in_workspace {
        workspace_root
    } else {
        match current_dir {
            Some(d) => d,
            None => ".",
        }
    };
    join_path2(base, "schemas", "worker-output.schema.json")
}

} // verus!
