//! Supervision: admitting a new agent, recording it, waiting for any agent to finish and
//! cancelling one with graded signals.
//!
//! Processes are started, probed and signalled by the caller; the rules are here.

use vstd::prelude::*;
use crate::error::OrchestratorError;
use crate::ids::{check_id, is_valid_id};
use crate::json::{empty_object, Json, JsonV};
use crate::number::{parse_i32, parsed_i32};
use crate::reconcile::{
    agent_event, agent_event_count, agent_event_view, has_agent_event, SubagentInfo, SubagentInfoV,
    SubagentStatus,
};
use crate::reconcile_laws::lemma_agent_event_count_push;
use crate::split::{decimal, push_decimal};
use crate::task::{
    AgentInstance, AgentInstanceState, AgentInstanceV, TaskConfig, TaskEvent, TaskEventV, TaskFile,
    TaskFileV, Timestamp,
};
use crate::text::{
    chars_of, copy_string, lemma_views_push, owned, string_is, string_of, trim, trim_text, views,
};

verus! {

/// What is needed to start a batch worker for a task.
#[derive(Debug, Clone, PartialEq, Eq)]
pub struct SubagentSpawnRequest {
    pub task_id: String,
    pub agent_instance: String,
    pub agent: String,
    pub prompt: String,
    pub cwd: String,
    pub codex_bin: String,
    pub output_schema_path: String,
}

/// The agent that was started and the process that runs it.
#[derive(Debug, Clone, PartialEq, Eq)]
pub struct SubagentSpawnResponse {
    pub agent_instance: String,
    pub pid: u32,
}

/// The first agent that was found not to be running.
#[derive(Debug, Clone, PartialEq, Eq)]
pub struct SubagentWaitAnyResult {
    pub agent_instance: String,
    pub status: SubagentStatus,
}

/// How many of the first `n` agents are running.
pub open spec fn running_among(infos: Seq<SubagentInfoV>, n: int) -> nat
    decreases n,
{
    if n <= 0 || n > infos.len() {
        0
    } else {
        running_among(infos, n - 1) + if infos[n - 1].status == SubagentStatus::Running {
            1nat
        } else {
            0nat
        }
    }
}

/// How many agents are running.
pub open spec fn running_count(infos: Seq<SubagentInfoV>) -> nat {
    running_among(infos, infos.len() as int)
}

/// Counts the running agents. A count beyond `u32::MAX` is given as `u32::MAX`.
pub fn count_running(infos: &Vec<SubagentInfo>) -> (r: u32)
    ensures
        r == if running_count(views(infos@)) > u32::MAX {
            u32::MAX as nat
        } else {
            running_count(views(infos@))
        },
{
    let mut count: usize = 0;
    let mut i: usize = 0;
    while i < infos.len()
        invariant
            i <= infos.len(),
            count <= i,
            count == running_among(views(infos@), i as int),
        decreases infos.len() - i,
    {
        if infos[i].status == SubagentStatus::Running {
            count += 1;
        }
        i += 1;
    }
    if count > u32::MAX as usize {
        u32::MAX
    } else {
        count as u32
    }
}

/// The first index at or after `from` of an agent named `instance`; the number of agents
/// if there is none.
pub open spec fn info_index(infos: Seq<SubagentInfoV>, instance: Seq<char>, from: int) -> int
    decreases infos.len() - from,
{
    if from < 0 || from >= infos.len() {
        infos.len() as int
    } else if infos[from].agent_instance == instance {
        from
    } else {
        info_index(infos, instance, from + 1)
    }
}

/// An agent named `instance` is among `infos`.
pub open spec fn is_known(infos: Seq<SubagentInfoV>, instance: Seq<char>) -> bool {
    info_index(infos, instance, 0) < infos.len()
}

/// Tells whether an agent named `instance` is among `infos`.
pub fn knows_agent(infos: &Vec<SubagentInfo>, instance: &Vec<char>) -> (r: bool)
    ensures
        r == is_known(views(infos@), instance@),
{
    let mut i: usize = 0;
    while i < infos.len()
        invariant
            i <= infos.len(),
            info_index(views(infos@), instance@, 0) == info_index(
                views(infos@),
                instance@,
                i as int,
            ),
        decreases infos.len() - i,
    {
        if string_is(&infos[i].agent_instance, instance) {
            return true;
        }
        i += 1;
    }
    false
}

/// What the rules say of a request to start an agent.
pub enum SpawnVerdict {
    /// The agent may be started.
    Admitted,
    /// The named text is no identifier.
    InvalidId(Seq<char>),
    /// An agent of that name is in the roster, or its directory exists.
    AlreadyExists,
    /// As many agents are running as the task allows.
    ConcurrencyLimit { active: u32, limit: u32 },
}

/// The verdict on a request to start `instance` with the role `agent`, given the
/// reconciled agents of the task, its limit, and whether the directory of the agent
/// exists. The identifiers are checked first, then the roster, then the number of running
/// agents against the limit, then the directory.
pub open spec fn spawn_verdict(
    infos: Seq<SubagentInfoV>,
    limit: u32,
    instance: Seq<char>,
    agent: Seq<char>,
    dir_exists: bool,
) -> SpawnVerdict {
    let active: u32 = if running_count(infos) > u32::MAX {
        u32::MAX
    } else {
        running_count(infos) as u32
    };
    if !is_valid_id(instance) {
        SpawnVerdict::InvalidId(instance)
    } else if !is_valid_id(agent) {
        SpawnVerdict::InvalidId(agent)
    } else if is_known(infos, instance) {
        SpawnVerdict::AlreadyExists
    } else if active >= limit {
        SpawnVerdict::ConcurrencyLimit { active: active, limit: limit }
    } else if dir_exists {
        SpawnVerdict::AlreadyExists
    } else {
        SpawnVerdict::Admitted
    }
}

/// The verdict that a result of `admit_spawn` stands for, for a request to start
/// `instance`.
pub open spec fn verdict_of(r: Result<(), OrchestratorError>, instance: Seq<char>) -> Option<
    SpawnVerdict,
> {
    match r {
        Ok(()) => Some(SpawnVerdict::Admitted),
        Err(OrchestratorError::InvalidAgentInstance { agent_instance }) => Some(
            SpawnVerdict::InvalidId(agent_instance@),
        ),
        Err(OrchestratorError::SubagentAlreadyExists { agent_instance }) => if agent_instance@
            == instance {
            Some(SpawnVerdict::AlreadyExists)
        } else {
            None
        },
        Err(OrchestratorError::ConcurrencyLimit { active, limit }) => Some(
            SpawnVerdict::ConcurrencyLimit { active: active, limit: limit },
        ),
        Err(_) => None,
    }
}

/// Decides whether an agent may be started.
pub fn admit_spawn(
    infos: &Vec<SubagentInfo>,
    limit: u32,
    agent_instance: &str,
    agent: &str,
    dir_exists: bool,
) -> (r: Result<(), OrchestratorError>)
    ensures
        verdict_of(r, agent_instance@) == Some(
            spawn_verdict(views(infos@), limit, agent_instance@, agent@, dir_exists),
        ),
{
    let instance = chars_of(agent_instance);
    if !check_id(&instance) {
        return Err(OrchestratorError::InvalidAgentInstance { agent_instance: string_of(&instance) });
    }
    let role = chars_of(agent);
    if !check_id(&role) {
        return Err(OrchestratorError::InvalidAgentInstance { agent_instance: string_of(&role) });
    }
    if knows_agent(infos, &instance) {
        return Err(
            OrchestratorError::SubagentAlreadyExists { agent_instance: string_of(&instance) },
        );
    }
    let active = count_running(infos);
    if active >= limit {
        return Err(OrchestratorError::ConcurrencyLimit { active: active, limit: limit });
    }
    if dir_exists {
        return Err(
            OrchestratorError::SubagentAlreadyExists { agent_instance: string_of(&instance) },
        );
    }
    Ok(())
}

/// A request for a fresh agent with valid names, whose directory does not exist, is
/// admitted exactly where fewer agents are running than the task allows.
pub proof fn law_admission_follows_running_count(
    infos: Seq<SubagentInfoV>,
    limit: u32,
    instance: Seq<char>,
    agent: Seq<char>,
)
    requires
        is_valid_id(instance),
        is_valid_id(agent),
        !is_known(infos, instance),
    ensures
        spawn_verdict(infos, limit, instance, agent, false) is Admitted <==> running_count(infos)
            < limit,
{
}

/// The arguments of the batch worker.
pub open spec fn exec_arguments_of(
    cwd: Seq<char>,
    schema: Seq<char>,
    artifact: Seq<char>,
    prompt: Seq<char>,
) -> Seq<Seq<char>> {
    seq![
        "exec"@,
        "--json"@,
        "-C"@,
        cwd,
        "--output-schema"@,
        schema,
        "--output-last-message"@,
        artifact,
        prompt,
    ]
}

/// Builds the arguments of the batch worker.
pub fn exec_arguments(cwd: &str, schema: &str, artifact: &str, prompt: &str) -> (out: Vec<String>)
    ensures
        views(out@) == exec_arguments_of(cwd@, schema@, artifact@, prompt@),
{
    let mut out: Vec<String> = Vec::new();
    out.push(owned("exec"));
    out.push(owned("--json"));
    out.push(owned("-C"));
    out.push(owned(cwd));
    out.push(owned("--output-schema"));
    out.push(owned(schema));
    out.push(owned("--output-last-message"));
    out.push(owned(artifact));
    out.push(owned(prompt));
    proof {
        assert(views(out@) =~= exec_arguments_of(cwd@, schema@, artifact@, prompt@));
    }
    out
}

/// The content of a pid file.
pub open spec fn pid_file_text(pid: u32) -> Seq<char> {
    decimal(pid as nat).push('\n')
}

/// Writes the content of a pid file.
pub fn pid_file_content(pid: u32) -> (r: String)
    ensures
        r@ == pid_file_text(pid),
{
    let mut out: Vec<char> = Vec::new();
    push_decimal(&mut out, pid as u64);
    out.push('\n');
    proof {
        assert(out@ =~= pid_file_text(pid));
    }
    string_of(&out)
}

/// Reads the content of a pid file: no pid where it is blank, the pid where the trimmed
/// content writes a signed 32-bit integer, and an error otherwise.
pub fn parse_pid(content: &str) -> (r: Result<Option<i32>, OrchestratorError>)
    ensures
        trim(content@).len() == 0 ==> r == Ok::<Option<i32>, OrchestratorError>(None),
        trim(content@).len() > 0 ==> match parsed_i32(trim(content@)) {
            Some(n) => r == Ok::<Option<i32>, OrchestratorError>(Some(n as i32)),
            None => r is Err,
        },
{
    let v = chars_of(content);
    let t = trim_text(&v);
    if t.len() == 0 {
        return Ok(None);
    }
    match parse_i32(&t) {
        Some(n) => Ok(Some(n)),
        None => Err(OrchestratorError::Io(owned("invalid pid"))),
    }
}

/// The payload of the event that records the start of an agent.
pub open spec fn started_payload(cwd: Seq<char>, adapter: Seq<char>) -> JsonV {
    empty_object().with("adapter"@, JsonV::Str(adapter)).with("cwd"@, JsonV::Str(cwd))
}

/// The roster entry of an agent that was just started.
pub open spec fn started_entry(instance: Seq<char>, agent: Seq<char>) -> AgentInstanceV {
    AgentInstanceV {
        instance: instance,
        agent: agent,
        state: AgentInstanceState::Active,
        assigned_milestone: None,
        skills: Seq::empty(),
    }
}

/// The descriptor after an agent was started: the agent stands at the end of the roster
/// as active, and the descriptor was updated at `now`, or at the instant on record
/// where that is later.
pub open spec fn with_started_agent(
    task: TaskFileV,
    instance: Seq<char>,
    agent: Seq<char>,
    now: Timestamp,
) -> TaskFileV {
    TaskFileV {
        roster: task.roster.push(started_entry(instance, agent)),
        updated_at: task.updated_at.later(now),
        ..task
    }
}

/// Records an agent that was started: adds it to the roster and builds the event
/// `agent.started`, which names the working directory and the adapter.
pub fn register_spawn(
    task: TaskFile,
    agent_instance: &str,
    agent: &str,
    cwd: &str,
    adapter: &str,
    by: &str,
    now: Timestamp,
) -> (r: (TaskFile, TaskEvent))
    ensures
        r.0@ == with_started_agent(task@, agent_instance@, agent@, now),
        r.1@ == (TaskEventV {
            by: Some(by@),
            ..agent_event_view(
                task@.id,
                agent_instance@,
                "agent.started"@,
                started_payload(cwd@, adapter@),
                now,
            )
        }),
{
    let mut task = task;
    let ghost before = task.roster@;
    let entry = AgentInstance {
        instance: owned(agent_instance),
        agent: owned(agent),
        state: AgentInstanceState::Active,
        assigned_milestone: None,
        skills: Vec::new(),
    };
    proof {
        assert(views(entry.skills@) =~= Seq::<Seq<char>>::empty());
        lemma_views_push(before, entry);
    }
    task.roster.push(entry);
    task.updated_at = task.updated_at.later_of(now);
    let mut payload = Json::object();
    payload.set("adapter", Json::string(adapter));
    payload.set("cwd", Json::string(cwd));
    let mut event = agent_event(task.id.as_str(), agent_instance, "agent.started", payload, now);
    event.by = Some(owned(by));
    (task, event)
}

/// The first index at or after `from` of an agent that is not running; the number of
/// agents if all are.
pub open spec fn first_finished_index(infos: Seq<SubagentInfoV>, from: int) -> int
    decreases infos.len() - from,
{
    if from < 0 || from >= infos.len() {
        infos.len() as int
    } else if infos[from].status != SubagentStatus::Running {
        from
    } else {
        first_finished_index(infos, from + 1)
    }
}

/// Finds the first agent, in roster order, that is not running.
pub fn first_finished(infos: &Vec<SubagentInfo>) -> (r: Option<SubagentWaitAnyResult>)
    ensures
        match r {
            Some(found) => {
                let i = first_finished_index(views(infos@), 0);
                &&& 0 <= i < infos.len()
                &&& found.agent_instance@ == infos@[i].agent_instance@
                &&& found.status == infos@[i].status
            },
            None => first_finished_index(views(infos@), 0) == infos.len(),
        },
{
    let mut i: usize = 0;
    while i < infos.len()
        invariant
            i <= infos.len(),
            first_finished_index(views(infos@), 0) == first_finished_index(
                views(infos@),
                i as int,
            ),
        decreases infos.len() - i,
    {
        if infos[i].status != SubagentStatus::Running {
            return Some(
                SubagentWaitAnyResult {
                    agent_instance: copy_string(&infos[i].agent_instance),
                    status: infos[i].status,
                },
            );
        }
        i += 1;
    }
    None
}

/// The time to wait for: the one asked for, else the one of the task.
pub fn effective_timeout(timeout_seconds: Option<u32>, config: &TaskConfig) -> (r: u32)
    ensures
        r == match timeout_seconds {
            Some(t) => t,
            None => config.timeout_seconds,
        },
{
    match timeout_seconds {
        Some(t) => t,
        None => config.timeout_seconds,
    }
}

/// What a waiting caller does next.
#[derive(Debug, Clone, PartialEq, Eq)]
pub enum WaitStep {
    /// An agent is not running: the wait is over.
    Finished(SubagentWaitAnyResult),
    /// All agents are running and the time is up.
    TimedOut(OrchestratorError),
    /// All agents are running: sleep for the poll interval and reconcile again.
    Poll,
}

/// The poll interval of a wait, in milliseconds.
pub const POLL_INTERVAL_MS: u64 = 250;

/// Decides the next step of a wait from the reconciled agents and from whether the
/// deadline is reached. An agent that is not running ends the wait even at the deadline.
pub fn wait_any_step(infos: &Vec<SubagentInfo>, deadline_reached: bool, timeout_seconds: u32) -> (r:
    WaitStep)
    ensures
        first_finished_index(views(infos@), 0) < infos.len() ==> (r matches WaitStep::Finished(found)
            && found.agent_instance@ == infos@[first_finished_index(
            views(infos@),
            0,
        )].agent_instance@ && found.status == infos@[first_finished_index(views(infos@), 0)].status),
        first_finished_index(views(infos@), 0) == infos.len() && deadline_reached ==> r
            == WaitStep::TimedOut(
            OrchestratorError::WaitAnyTimeout { timeout_seconds: timeout_seconds },
        ),
        first_finished_index(views(infos@), 0) == infos.len() && !deadline_reached ==> r
            == WaitStep::Poll,
{
    match first_finished(infos) {
        Some(found) => WaitStep::Finished(found),
        None => if deadline_reached {
            WaitStep::TimedOut(OrchestratorError::WaitAnyTimeout { timeout_seconds: timeout_seconds })
        } else {
            WaitStep::Poll
        },
    }
}

/// A signal of the graded cancellation.
#[derive(Debug, Clone, Copy, PartialEq, Eq, Structural)]
pub enum CancelSignal {
    Interrupt,
    Terminate,
    Kill,
}

/// How far a cancellation has come.
#[derive(Debug, Clone, Copy, PartialEq, Eq, Structural)]
pub enum CancelPhase {
    /// Nothing was sent yet.
    Start,
    /// The interrupt was sent; the process has the grace period to leave.
    Interrupted,
    /// The request to terminate was sent; the process has the second period to leave.
    Terminated,
    /// The process was killed.
    Killed,
    /// The cancellation is over.
    Done,
}

/// What the caller does next in a cancellation.
#[derive(Debug, Clone, Copy, PartialEq, Eq, Structural)]
pub enum CancelAction {
    /// Send the signal and start the clock of the new phase.
    Send(CancelSignal),
    /// Sleep for the given milliseconds and probe the process again.
    Sleep(u64),
    /// Nothing is left to do.
    Finish,
}

/// How long a process has to leave after the interrupt, in milliseconds.
pub const CANCEL_GRACE_MS: u64 = 3000;

/// How long a process has to leave after the request to terminate, in milliseconds.
pub const CANCEL_TERMINATE_MS: u64 = 2000;

/// How long the caller sleeps between two probes, in milliseconds.
pub const CANCEL_POLL_MS: u64 = 100;

/// The next phase and action of a cancellation, from the phase, from whether the process
/// is alive, and from the milliseconds since the phase began.
pub open spec fn cancel_next(phase: CancelPhase, alive: bool, elapsed_ms: u64) -> (
    CancelPhase,
    CancelAction,
) {
    if !alive {
        (CancelPhase::Done, CancelAction::Finish)
    } else {
        match phase {
            CancelPhase::Start => (
                CancelPhase::Interrupted,
                CancelAction::Send(CancelSignal::Interrupt),
            ),
            CancelPhase::Interrupted => if elapsed_ms < CANCEL_GRACE_MS {
                (CancelPhase::Interrupted, CancelAction::Sleep(CANCEL_POLL_MS))
            } else {
                (CancelPhase::Terminated, CancelAction::Send(CancelSignal::Terminate))
            },
            CancelPhase::Terminated => if elapsed_ms < CANCEL_TERMINATE_MS {
                (CancelPhase::Terminated, CancelAction::Sleep(CANCEL_POLL_MS))
            } else {
                (CancelPhase::Killed, CancelAction::Send(CancelSignal::Kill))
            },
            CancelPhase::Killed => (CancelPhase::Done, CancelAction::Finish),
            CancelPhase::Done => (CancelPhase::Done, CancelAction::Finish),
        }
    }
}

/// Decides the next step of a cancellation.
pub fn cancel_step(phase: CancelPhase, alive: bool, elapsed_ms: u64) -> (r: (
    CancelPhase,
    CancelAction,
))
    ensures
        r == cancel_next(phase, alive, elapsed_ms),
{
    if !alive {
        return (CancelPhase::Done, CancelAction::Finish);
    }
    match phase {
        CancelPhase::Start => (CancelPhase::Interrupted, CancelAction::Send(CancelSignal::Interrupt)),
        CancelPhase::Interrupted => if elapsed_ms < CANCEL_GRACE_MS {
            (CancelPhase::Interrupted, CancelAction::Sleep(CANCEL_POLL_MS))
        } else {
            (CancelPhase::Terminated, CancelAction::Send(CancelSignal::Terminate))
        },
        CancelPhase::Terminated => if elapsed_ms < CANCEL_TERMINATE_MS {
            (CancelPhase::Terminated, CancelAction::Sleep(CANCEL_POLL_MS))
        } else {
            (CancelPhase::Killed, CancelAction::Send(CancelSignal::Kill))
        },
        CancelPhase::Killed => (CancelPhase::Done, CancelAction::Finish),
        CancelPhase::Done => (CancelPhase::Done, CancelAction::Finish),
    }
}

/// Why a probe of a process failed.
#[derive(Debug, Clone, Copy, PartialEq, Eq, Structural)]
pub enum ProbeError {
    /// The process is no child of the caller.
    NoChild,
    /// There is no such process.
    NoSuchProcess,
    /// Anything else.
    Other,
}

/// What a probe says of a process.
#[derive(Debug, Clone, Copy, PartialEq, Eq, Structural)]
pub enum Liveness {
    Alive,
    Gone,
    /// The probe could not tell: ask by a null signal.
    Unknown,
    /// The probe failed.
    Failed,
}

/// What a wait without hanging says of the process `pid`: 0 is alive, the pid itself is
/// reaped, -1 is gone where there is no such process and a failure where the error is
/// neither that nor a missing child; every other outcome leaves it open.
pub fn liveness_after_wait(rc: i32, pid: i32, error: ProbeError) -> (r: Liveness)
    ensures
        r == if rc == 0 {
            Liveness::Alive
        } else if rc == pid {
            Liveness::Gone
        } else if rc == -1 && error == ProbeError::NoSuchProcess {
            Liveness::Gone
        } else if rc == -1 && error == ProbeError::Other {
            Liveness::Failed
        } else {
            Liveness::Unknown
        },
{
    if rc == 0 {
        Liveness::Alive
    } else if rc == pid {
        Liveness::Gone
    } else if rc == -1 {
        match error {
            ProbeError::NoChild => Liveness::Unknown,
            ProbeError::NoSuchProcess => Liveness::Gone,
            ProbeError::Other => Liveness::Failed,
        }
    } else {
        Liveness::Unknown
    }
}

/// What a null signal says of a process: 0 is alive, a missing process is gone, and
/// anything else is a failure.
pub fn liveness_after_signal(rc: i32, error: ProbeError) -> (r: Liveness)
    ensures
        r == if rc == 0 {
            Liveness::Alive
        } else if error == ProbeError::NoSuchProcess {
            Liveness::Gone
        } else {
            Liveness::Failed
        },
{
    if rc == 0 {
        Liveness::Alive
    } else if error == ProbeError::NoSuchProcess {
        Liveness::Gone
    } else {
        Liveness::Failed
    }
}

/// Whether sending a signal went well: a missing process is no error.
pub fn signal_delivered(rc: i32, error: ProbeError) -> (ok: bool)
    ensures
        ok == (rc == 0 || error == ProbeError::NoSuchProcess),
{
    rc == 0 || error == ProbeError::NoSuchProcess
}

/// The first index at or after `from` of a roster entry named `instance`; the length of
/// the roster if there is none.
pub open spec fn roster_index(roster: Seq<AgentInstanceV>, instance: Seq<char>, from: int) -> int
    decreases roster.len() - from,
{
    if from < 0 || from >= roster.len() {
        roster.len() as int
    } else if roster[from].instance == instance {
        from
    } else {
        roster_index(roster, instance, from + 1)
    }
}

/// Finds the first roster entry named `instance`.
pub fn find_in_roster(roster: &Vec<AgentInstance>, instance: &Vec<char>) -> (r: Option<usize>)
    ensures
        match r {
            Some(at) => at < roster.len() && roster_index(views(roster@), instance@, 0) == at,
            None => roster_index(views(roster@), instance@, 0) == roster.len(),
        },
{
    let mut i: usize = 0;
    while i < roster.len()
        invariant
            i <= roster.len(),
            roster_index(views(roster@), instance@, 0) == roster_index(
                views(roster@),
                instance@,
                i as int,
            ),
        decreases roster.len() - i,
    {
        if string_is(&roster[i].instance, instance) {
            return Some(i);
        }
        i += 1;
    }
    None
}

/// What the cancellation of an agent leaves behind.
#[derive(Debug, Clone, PartialEq, Eq)]
pub struct Cancellation {
    /// The descriptor as it is to stand.
    pub task: TaskFile,
    /// The events that are to be appended to the log.
    pub events: Vec<TaskEvent>,
    /// Whether the descriptor changed and is to be written.
    pub changed: bool,
}

/// The descriptor after the agent at `at` was cancelled: it is failed, and where it was
/// not failed before, the descriptor was updated at `now`, or at the instant on record
/// where that is later.
pub open spec fn with_cancelled_agent(task: TaskFileV, at: int, now: Timestamp) -> TaskFileV {
    if task.roster[at].state == AgentInstanceState::Failed {
        task
    } else {
        TaskFileV {
            roster: task.roster.update(
                at,
                AgentInstanceV { state: AgentInstanceState::Failed, ..task.roster[at] },
            ),
            updated_at: task.updated_at.later(now),
            ..task
        }
    }
}

/// The events that the cancellation of an agent adds to the log: the event
/// `agent.cancelled`, unless the log holds one for the agent.
pub open spec fn cancellation_events(
    task_id: Seq<char>,
    log: Seq<TaskEventV>,
    agent: Seq<char>,
    now: Timestamp,
) -> Seq<TaskEventV> {
    if agent_event_count(log, agent, "agent.cancelled"@) > 0 {
        Seq::<TaskEventV>::empty()
    } else {
        seq![agent_event_view(task_id, agent, "agent.cancelled"@, empty_object(), now)]
    }
}

/// A cancellation keeps the events of agents single: an event that stood at most once
/// for an agent in the log stands at most once after the cancellation of any agent was
/// recorded, however often that agent is cancelled.
pub proof fn law_cancellation_is_recorded_once(
    task_id: Seq<char>,
    log: Seq<TaskEventV>,
    agent: Seq<char>,
    now: Timestamp,
    who: Seq<char>,
    ty: Seq<char>,
)
    requires
        agent_event_count(log, who, ty) <= 1,
    ensures
        agent_event_count(log + cancellation_events(task_id, log, agent, now), who, ty) <= 1,
{
    let added = cancellation_events(task_id, log, agent, now);
    if agent_event_count(log, agent, "agent.cancelled"@) > 0 {
        assert(log + added =~= log);
    } else {
        lemma_agent_event_count_push(log, added[0], who, ty);
        assert(log + added =~= log.push(added[0]));
    }
}

/// A start is recorded once: where the log holds no start of the new agent, the log
/// with the event of `register_spawn` holds exactly one, and the events of every other
/// kind and agent stand as often as before.
pub proof fn law_start_is_recorded_once(
    log: Seq<TaskEventV>,
    started: TaskEventV,
    agent: Seq<char>,
    who: Seq<char>,
    ty: Seq<char>,
)
    requires
        started.event_type == "agent.started"@,
        started.agent_instance == Some(agent),
        agent_event_count(log, agent, "agent.started"@) == 0,
    ensures
        agent_event_count(log.push(started), agent, "agent.started"@) == 1,
        who != agent || ty != "agent.started"@ ==> agent_event_count(log.push(started), who, ty)
            == agent_event_count(log, who, ty),
{
    lemma_agent_event_count_push(log, started, agent, "agent.started"@);
    lemma_agent_event_count_push(log, started, who, ty);
}

/// Records the cancellation of an agent: the event `agent.cancelled` is to be appended
/// unless the log holds one for the agent, and the agent is marked as failed.
///
/// The name must be an identifier, else the result is `InvalidAgentInstance`; the agent
/// must be in the roster, else it is `SubagentNotFound`.
pub fn finish_cancel(
    task: TaskFile,
    log: &Vec<TaskEvent>,
    agent_instance: &str,
    now: Timestamp,
) -> (r: Result<Cancellation, OrchestratorError>)
    ensures
        !is_valid_id(agent_instance@) ==> (r matches Err(
            OrchestratorError::InvalidAgentInstance { agent_instance: t },
        ) && t@ == agent_instance@),
        is_valid_id(agent_instance@) && roster_index(task@.roster, agent_instance@, 0)
            == task@.roster.len() ==> (r matches Err(
            OrchestratorError::SubagentNotFound { agent_instance: t },
        ) && t@ == agent_instance@),
        is_valid_id(agent_instance@) && roster_index(task@.roster, agent_instance@, 0)
            < task@.roster.len() ==> (r matches Ok(c) && {
            let at = roster_index(task@.roster, agent_instance@, 0);
            &&& c.task@ == with_cancelled_agent(task@, at, now)
            &&& c.changed == (task@.roster[at].state != AgentInstanceState::Failed)
            &&& views(c.events@) == cancellation_events(task@.id, views(log@), agent_instance@, now)
        }),
{
    let instance = chars_of(agent_instance);
    if !check_id(&instance) {
        return Err(OrchestratorError::InvalidAgentInstance { agent_instance: string_of(&instance) });
    }
    let mut task = task;
    let ghost t0 = task@;
    let at = match find_in_roster(&task.roster, &instance) {
        Some(at) => at,
        None => {
            return Err(
                OrchestratorError::SubagentNotFound { agent_instance: string_of(&instance) },
            );
        },
    };
    let mut events: Vec<TaskEvent> = Vec::new();
    let ty = chars_of("agent.cancelled");
    if !has_agent_event(log, &instance, &ty) {
        let e = agent_event(task.id.as_str(), agent_instance, "agent.cancelled", Json::object(), now);
        events.push(e);
        proof {
            assert(views(events@) =~= seq![e@]);
        }
    } else {
        proof {
            assert(views(events@) =~= Seq::<TaskEventV>::empty());
        }
    }
    let changed = task.roster[at].state != AgentInstanceState::Failed;
    if changed {
        let ghost before = task.roster@;
        let entry = task.roster.remove(at);
        let next = AgentInstance {
            instance: entry.instance,
            agent: entry.agent,
            state: AgentInstanceState::Failed,
            assigned_milestone: entry.assigned_milestone,
            skills: entry.skills,
        };
        proof {
            assert(views(before.remove(at as int).insert(at as int, next)) =~= views(before).update(
                at as int,
                AgentInstanceV { state: AgentInstanceState::Failed, ..views(before)[at as int] },
            ));
        }
        task.roster.insert(at, next);
        task.updated_at = task.updated_at.later_of(now);
    }
    Ok(Cancellation { task: task, events: events, changed: changed })
}

} // verus!
