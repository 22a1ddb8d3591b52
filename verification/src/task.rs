//! The task descriptor and its parts.

use vstd::prelude::*;
use crate::json::{Json, JsonV};
use crate::text::{opt_view, views};

verus! {

/// How the agents of a task are arranged.
#[derive(Debug, Clone, Copy, PartialEq, Eq, Structural)]
pub enum TaskTopology {
    Swarm,
    Squad,
}

/// The lifecycle state of a task.
#[derive(Debug, Clone, Copy, PartialEq, Eq, Structural)]
pub enum TaskState {
    Created,
    Working,
    InputRequired,
    Completed,
    Failed,
    Canceled,
}

/// The state of a milestone.
#[derive(Debug, Clone, Copy, PartialEq, Eq, Structural)]
pub enum MilestoneState {
    Pending,
    Working,
    Done,
    Blocked,
}

impl Default for MilestoneState {
    fn default() -> (r: Self)
        ensures
            r == MilestoneState::Pending,
    {
        MilestoneState::Pending
    }
}

/// The persisted state of an agent instance.
#[derive(Debug, Clone, Copy, PartialEq, Eq, Structural)]
pub enum AgentInstanceState {
    Pending,
    Active,
    Awaiting,
    Dormant,
    Completed,
    Failed,
}

impl Default for AgentInstanceState {
    fn default() -> (r: Self)
        ensures
            r == AgentInstanceState::Pending,
    {
        AgentInstanceState::Pending
    }
}

/// The kind of a gate.
#[derive(Debug, Clone, Copy, PartialEq, Eq, Structural)]
pub enum GateType {
    HumanApproval,
    AutoCheck,
    MilestoneGate,
}

/// The state of a gate.
#[derive(Debug, Clone, Copy, PartialEq, Eq, Structural)]
pub enum GateState {
    Open,
    Blocked,
    Approved,
    Rejected,
}

/// An instant in UTC: whole seconds since the Unix epoch and the nanoseconds within
/// that second.
#[derive(Debug, Clone, Copy, PartialEq, Eq, Structural)]
pub struct Timestamp {
    pub secs: i64,
    pub nanos: u32,
}

/// The last second of the year 9999, the last one that an RFC 3339 date can name.
pub const MAX_TIMESTAMP_SECS: i64 = 253402300799;

impl Timestamp {
    /// The instant lies within the years 1970 to 9999 and its nanoseconds within one
    /// second.
    pub open spec fn wf(self) -> bool {
        0 <= self.secs <= MAX_TIMESTAMP_SECS && self.nanos < 1_000_000_000
    }

    /// `self` is no later than `other`.
    pub open spec fn le(self, other: Timestamp) -> bool {
        self.secs < other.secs || (self.secs == other.secs && self.nanos <= other.nanos)
    }

    /// Tells whether `self` is no later than `other`.
    pub fn not_after(&self, other: &Timestamp) -> (r: bool)
        ensures
            r == self.le(*other),
    {
        self.secs < other.secs || (self.secs == other.secs && self.nanos <= other.nanos)
    }

    /// The later of two instants.
    pub open spec fn later(self, other: Timestamp) -> Timestamp {
        if self.le(other) {
            other
        } else {
            self
        }
    }

    /// The later of two instants.
    pub fn later_of(self, other: Timestamp) -> (r: Timestamp)
        ensures
            r == self.later(other),
            self.le(r),
            other.le(r),
    {
        if self.not_after(&other) {
            other
        } else {
            self
        }
    }

    /// Tells whether the instant can be written as an RFC 3339 date.
    pub fn is_valid(&self) -> (r: bool)
        ensures
            r == self.wf(),
    {
        0 <= self.secs && self.secs <= MAX_TIMESTAMP_SECS && self.nanos < 1_000_000_000
    }
}

/// A step of the plan of a task.
#[derive(Debug, Clone, PartialEq, Eq)]
pub struct Milestone {
    pub id: String,
    pub title: String,
    pub state: MilestoneState,
    pub depends_on: Vec<String>,
}

/// The view of a [`Milestone`].
pub struct MilestoneV {
    pub id: Seq<char>,
    pub title: Seq<char>,
    pub state: MilestoneState,
    pub depends_on: Seq<Seq<char>>,
}

impl View for Milestone {
    type V = MilestoneV;

    open spec fn view(&self) -> MilestoneV {
        MilestoneV {
            id: self.id@,
            title: self.title@,
            state: self.state,
            depends_on: views(self.depends_on@),
        }
    }
}

/// One scheduled occurrence of an agent role within a task.
#[derive(Debug, Clone, PartialEq, Eq)]
pub struct AgentInstance {
    pub instance: String,
    pub agent: String,
    pub state: AgentInstanceState,
    pub assigned_milestone: Option<String>,
    pub skills: Vec<String>,
}

/// The view of an [`AgentInstance`].
pub struct AgentInstanceV {
    pub instance: Seq<char>,
    pub agent: Seq<char>,
    pub state: AgentInstanceState,
    pub assigned_milestone: Option<Seq<char>>,
    pub skills: Seq<Seq<char>>,
}

impl View for AgentInstance {
    type V = AgentInstanceV;

    open spec fn view(&self) -> AgentInstanceV {
        AgentInstanceV {
            instance: self.instance@,
            agent: self.agent@,
            state: self.state,
            assigned_milestone: opt_view(self.assigned_milestone),
            skills: views(self.skills@),
        }
    }
}

/// A synchronisation point that can hold a task until it is resolved.
#[derive(Debug, Clone, PartialEq, Eq)]
pub struct Gate {
    pub id: String,
    pub gate_type: GateType,
    pub state: GateState,
    pub reason: String,
    pub instructions_ref: Option<String>,
    pub blocked_at: Option<Timestamp>,
    pub resolved_at: Option<Timestamp>,
    pub resolved_by: Option<String>,
}

/// The view of a [`Gate`].
pub struct GateV {
    pub id: Seq<char>,
    pub gate_type: GateType,
    pub state: GateState,
    pub reason: Seq<char>,
    pub instructions_ref: Option<Seq<char>>,
    pub blocked_at: Option<Timestamp>,
    pub resolved_at: Option<Timestamp>,
    pub resolved_by: Option<Seq<char>>,
}

impl View for Gate {
    type V = GateV;

    open spec fn view(&self) -> GateV {
        GateV {
            id: self.id@,
            gate_type: self.gate_type,
            state: self.state,
            reason: self.reason@,
            instructions_ref: opt_view(self.instructions_ref),
            blocked_at: self.blocked_at,
            resolved_at: self.resolved_at,
            resolved_by: opt_view(self.resolved_by),
        }
    }
}

/// The settings of a task.
#[derive(Debug, Clone, Copy, PartialEq, Eq, Structural)]
pub struct TaskConfig {
    pub max_concurrent_agents: u32,
    pub timeout_seconds: u32,
    pub auto_approve: bool,
}

impl Default for TaskConfig {
    fn default() -> (r: Self)
        ensures
            r == (TaskConfig { max_concurrent_agents: 3, timeout_seconds: 3600, auto_approve: false }),
    {
        TaskConfig { max_concurrent_agents: 3, timeout_seconds: 3600, auto_approve: false }
    }
}

/// The descriptor of a task.
#[derive(Debug, Clone, PartialEq, Eq)]
pub struct TaskFile {
    pub id: String,
    pub title: String,
    pub description: String,
    pub topology: TaskTopology,
    pub state: TaskState,
    pub created_at: Timestamp,
    pub updated_at: Timestamp,
    pub milestones: Vec<Milestone>,
    pub roster: Vec<AgentInstance>,
    pub gates: Vec<Gate>,
    pub config: TaskConfig,
}

/// The view of a [`TaskFile`].
pub struct TaskFileV {
    pub id: Seq<char>,
    pub title: Seq<char>,
    pub description: Seq<char>,
    pub topology: TaskTopology,
    pub state: TaskState,
    pub created_at: Timestamp,
    pub updated_at: Timestamp,
    pub milestones: Seq<MilestoneV>,
    pub roster: Seq<AgentInstanceV>,
    pub gates: Seq<GateV>,
    pub config: TaskConfig,
}

impl TaskFileV {
    /// The task was updated no earlier than it was created.
    pub open spec fn ordered(self) -> bool {
        self.created_at.le(self.updated_at)
    }
}

/// An update keeps the order of the instants of a task: a task that was updated no
/// earlier than it was created is so after an update at any instant, because the instant
/// of the update that is recorded is never earlier than the one on record.
pub proof fn law_updates_keep_order(task: TaskFileV, now: Timestamp)
    requires
        task.ordered(),
    ensures
        (TaskFileV { updated_at: task.updated_at.later(now), ..task }).ordered(),
        task.updated_at.le(task.updated_at.later(now)),
        now.le(task.updated_at.later(now)),
{
}

impl View for TaskFile {
    type V = TaskFileV;

    open spec fn view(&self) -> TaskFileV {
        TaskFileV {
            id: self.id@,
            title: self.title@,
            description: self.description@,
            topology: self.topology,
            state: self.state,
            created_at: self.created_at,
            updated_at: self.updated_at,
            milestones: views(self.milestones@),
            roster: views(self.roster@),
            gates: views(self.gates@),
            config: self.config,
        }
    }
}

/// What a caller gives to have a task created.
#[derive(Debug, Clone, PartialEq, Eq)]
pub struct CreateTaskRequest {
    pub title: String,
    pub description: String,
    pub topology: TaskTopology,
    pub milestones: Vec<Milestone>,
    pub roster: Vec<AgentInstance>,
    pub config: Option<TaskConfig>,
}

/// What a caller gets back for a created task.
#[derive(Debug, Clone, PartialEq, Eq)]
pub struct CreateTaskResponse {
    pub id: String,
    pub message: String,
}

/// One line of the append-only event log of a task.
#[derive(Debug, Clone, PartialEq, Eq)]
pub struct TaskEvent {
    pub ts: Timestamp,
    pub event_type: String,
    pub task_id: String,
    pub agent_instance: Option<String>,
    pub turn_id: Option<String>,
    pub payload: Json,
    pub by: Option<String>,
    pub path: Option<String>,
}

/// The view of a [`TaskEvent`].
pub struct TaskEventV {
    pub ts: Timestamp,
    pub event_type: Seq<char>,
    pub task_id: Seq<char>,
    pub agent_instance: Option<Seq<char>>,
    pub turn_id: Option<Seq<char>>,
    pub payload: JsonV,
    pub by: Option<Seq<char>>,
    pub path: Option<Seq<char>>,
}

impl View for TaskEvent {
    type V = TaskEventV;

    open spec fn view(&self) -> TaskEventV {
        TaskEventV {
            ts: self.ts,
            event_type: self.event_type@,
            task_id: self.task_id@,
            agent_instance: opt_view(self.agent_instance),
            turn_id: opt_view(self.turn_id),
            payload: self.payload@,
            by: opt_view(self.by),
            path: opt_view(self.path),
        }
    }
}

/// The state of the whole installation, as the front ends show it.
#[derive(Debug, Clone, PartialEq, Eq)]
pub struct ClusterStatus {
    pub orchestrator: String,
    pub codex_adapter: String,
    pub active_agents: u32,
    pub max_agents: u32,
}

} // verus!
