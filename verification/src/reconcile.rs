//! Reconciliation: deriving the status of each agent of a task from its final artifact,
//! the liveness of its process and the event history, and the state changes and events
//! that follow from it.
//!
//! Reading files and probing processes is left to the caller, who hands in one
//! [`Observation`] per roster entry and the event log, and who writes back what
//! [`reconcile`] returns.

use vstd::prelude::*;
use crate::json::{empty_object, Json, JsonV, lemma_list_view, list_view, parse, parsed_json};
use crate::split::{decimal, push_decimal};
use crate::task::{
    AgentInstance, AgentInstanceState, AgentInstanceV, Gate, GateState, GateType, GateV,
    TaskEvent, TaskEventV, TaskFile, TaskFileV, TaskState, Timestamp,
};
use crate::text::{
    append_str, append_text, chars_of, copy_string, is_blank_text, lemma_views_push, opt_view,
    owned, string_is, string_of, trim, trim_text, views,
};

verus! {

/// The status of an agent as reconciliation derives it.
#[derive(Debug, Clone, Copy, PartialEq, Eq, Structural)]
pub enum SubagentStatus {
    Running,
    Completed,
    Failed,
    Blocked,
    Cancelled,
}

impl SubagentStatus {
    /// The name of the status.
    pub open spec fn name(self) -> Seq<char> {
        match self {
            SubagentStatus::Running => "running"@,
            SubagentStatus::Completed => "completed"@,
            SubagentStatus::Failed => "failed"@,
            SubagentStatus::Blocked => "blocked"@,
            SubagentStatus::Cancelled => "cancelled"@,
        }
    }

    /// The name of the status.
    pub fn as_str(&self) -> (r: &'static str)
        ensures
            r@ == self.name(),
    {
        match self {
            SubagentStatus::Running => "running",
            SubagentStatus::Completed => "completed",
            SubagentStatus::Failed => "failed",
            SubagentStatus::Blocked => "blocked",
            SubagentStatus::Cancelled => "cancelled",
        }
    }

    /// The persisted state that a roster entry takes for this status.
    pub open spec fn target_state(self) -> AgentInstanceState {
        match self {
            SubagentStatus::Running => AgentInstanceState::Active,
            SubagentStatus::Blocked => AgentInstanceState::Awaiting,
            SubagentStatus::Completed => AgentInstanceState::Completed,
            SubagentStatus::Failed => AgentInstanceState::Failed,
            SubagentStatus::Cancelled => AgentInstanceState::Failed,
        }
    }

    /// The persisted state that a roster entry takes for this status.
    pub fn roster_state(&self) -> (r: AgentInstanceState)
        ensures
            r == self.target_state(),
    {
        match self {
            SubagentStatus::Running => AgentInstanceState::Active,
            SubagentStatus::Blocked => AgentInstanceState::Awaiting,
            SubagentStatus::Completed => AgentInstanceState::Completed,
            SubagentStatus::Failed => AgentInstanceState::Failed,
            SubagentStatus::Cancelled => AgentInstanceState::Failed,
        }
    }

    /// The type of the event that records this status; a running agent has none.
    pub open spec fn event_name(self) -> Option<Seq<char>> {
        match self {
            SubagentStatus::Running => None,
            SubagentStatus::Blocked => Some("agent.blocked"@),
            SubagentStatus::Completed => Some("agent.completed"@),
            SubagentStatus::Failed => Some("agent.failed"@),
            SubagentStatus::Cancelled => Some("agent.cancelled"@),
        }
    }

    /// The type of the event that records this status; a running agent has none.
    pub fn event_type(&self) -> (r: Option<&'static str>)
        ensures
            match r {
                Some(s) => self.event_name() == Some(s@),
                None => self.event_name() is None,
            },
    {
        match self {
            SubagentStatus::Running => None,
            SubagentStatus::Blocked => Some("agent.blocked"),
            SubagentStatus::Completed => Some("agent.completed"),
            SubagentStatus::Failed => Some("agent.failed"),
            SubagentStatus::Cancelled => Some("agent.cancelled"),
        }
    }
}

/// An agent of a task with its derived status.
#[derive(Debug, Clone, PartialEq, Eq)]
pub struct SubagentInfo {
    pub agent_instance: String,
    pub agent: String,
    pub status: SubagentStatus,
}

/// The view of a [`SubagentInfo`].
pub struct SubagentInfoV {
    pub agent_instance: Seq<char>,
    pub agent: Seq<char>,
    pub status: SubagentStatus,
}

impl View for SubagentInfo {
    type V = SubagentInfoV;

    open spec fn view(&self) -> SubagentInfoV {
        SubagentInfoV {
            agent_instance: self.agent_instance@,
            agent: self.agent@,
            status: self.status,
        }
    }
}

/// What the caller saw of one agent: the content of its final artifact, where that file
/// exists, and whether the process named in its pid file is alive, where it has one.
#[derive(Debug, Clone, PartialEq, Eq)]
pub struct Observation {
    pub final_text: Option<String>,
    pub pid_alive: Option<bool>,
}

/// The view of an [`Observation`].
pub struct ObservationV {
    pub final_text: Option<Seq<char>>,
    pub pid_alive: Option<bool>,
}

impl View for Observation {
    type V = ObservationV;

    open spec fn view(&self) -> ObservationV {
        ObservationV { final_text: opt_view(self.final_text), pid_alive: self.pid_alive }
    }
}

/// The status that a parsed final artifact reports.
pub open spec fn final_status(doc: JsonV) -> SubagentStatus {
    let status = doc.text_at("status"@);
    if status == Some("success"@) {
        SubagentStatus::Completed
    } else if status == Some("blocked"@) {
        SubagentStatus::Blocked
    } else {
        SubagentStatus::Failed
    }
}

/// The status that stands for a persisted state where nothing else is known.
pub open spec fn fallback_status(state: AgentInstanceState) -> SubagentStatus {
    match state {
        AgentInstanceState::Active => SubagentStatus::Failed,
        AgentInstanceState::Awaiting => SubagentStatus::Blocked,
        AgentInstanceState::Completed => SubagentStatus::Completed,
        AgentInstanceState::Failed => SubagentStatus::Failed,
        AgentInstanceState::Pending => SubagentStatus::Running,
        AgentInstanceState::Dormant => SubagentStatus::Running,
    }
}

/// The status of an agent. A cancellation on record comes first, then a final artifact
/// that parses, then the liveness of the recorded process, then the persisted state.
pub open spec fn derived_status(
    cancelled: bool,
    final_doc: Option<JsonV>,
    pid_alive: Option<bool>,
    state: AgentInstanceState,
) -> SubagentStatus {
    if cancelled {
        SubagentStatus::Cancelled
    } else if let Some(doc) = final_doc {
        final_status(doc)
    } else if let Some(alive) = pid_alive {
        if alive {
            SubagentStatus::Running
        } else {
            SubagentStatus::Failed
        }
    } else {
        fallback_status(state)
    }
}

/// Derives the status of an agent from what is known of it.
pub fn derive_status(
    cancelled: bool,
    final_doc: Option<&Json>,
    pid_alive: Option<bool>,
    state: AgentInstanceState,
) -> (r: SubagentStatus)
    ensures
        r == derived_status(
            cancelled,
            match final_doc {
                Some(d) => Some(d@),
                None => None,
            },
            pid_alive,
            state,
        ),
{
    if cancelled {
        return SubagentStatus::Cancelled;
    }
    if let Some(doc) = final_doc {
        return match doc.str_at("status") {
            Some(s) => {
                let success = chars_of("success");
                let blocked = chars_of("blocked");
                if string_is(s, &success) {
                    SubagentStatus::Completed
                } else if string_is(s, &blocked) {
                    SubagentStatus::Blocked
                } else {
                    SubagentStatus::Failed
                }
            },
            None => SubagentStatus::Failed,
        };
    }
    if let Some(alive) = pid_alive {
        return if alive {
            SubagentStatus::Running
        } else {
            SubagentStatus::Failed
        };
    }
    match state {
        AgentInstanceState::Active => SubagentStatus::Failed,
        AgentInstanceState::Awaiting => SubagentStatus::Blocked,
        AgentInstanceState::Completed => SubagentStatus::Completed,
        AgentInstanceState::Failed => SubagentStatus::Failed,
        AgentInstanceState::Pending => SubagentStatus::Running,
        AgentInstanceState::Dormant => SubagentStatus::Running,
    }
}

/// The event is of type `ty` and names the agent `agent`.
pub open spec fn is_agent_event(e: TaskEventV, agent: Seq<char>, ty: Seq<char>) -> bool {
    e.event_type == ty && e.agent_instance == Some(agent)
}

/// How many events of type `ty` the log holds for `agent`.
pub open spec fn agent_event_count(log: Seq<TaskEventV>, agent: Seq<char>, ty: Seq<char>) -> nat
    decreases log.len(),
{
    if log.len() == 0 {
        0
    } else {
        agent_event_count(log.drop_last(), agent, ty) + if is_agent_event(log.last(), agent, ty) {
            1nat
        } else {
            0nat
        }
    }
}

/// The event is of type `ty` and its payload names `gate` as its gate.
pub open spec fn is_gate_event(e: TaskEventV, gate: Seq<char>, ty: Seq<char>) -> bool {
    e.event_type == ty && e.payload.text_at("gateId"@) == Some(gate)
}

/// How many events of type `ty` the log holds for `gate`.
pub open spec fn gate_event_count(log: Seq<TaskEventV>, gate: Seq<char>, ty: Seq<char>) -> nat
    decreases log.len(),
{
    if log.len() == 0 {
        0
    } else {
        gate_event_count(log.drop_last(), gate, ty) + if is_gate_event(log.last(), gate, ty) {
            1nat
        } else {
            0nat
        }
    }
}

/// Counting over two logs in a row adds up.
pub proof fn lemma_agent_event_count_concat(
    a: Seq<TaskEventV>,
    b: Seq<TaskEventV>,
    agent: Seq<char>,
    ty: Seq<char>,
)
    ensures
        agent_event_count(a + b, agent, ty) == agent_event_count(a, agent, ty) + agent_event_count(
            b,
            agent,
            ty,
        ),
    decreases b.len(),
{
    if b.len() == 0 {
        assert(a + b =~= a);
    } else {
        lemma_agent_event_count_concat(a, b.drop_last(), agent, ty);
        assert((a + b).drop_last() =~= a + b.drop_last());
    }
}

/// Counting over two logs in a row adds up.
pub proof fn lemma_gate_event_count_concat(
    a: Seq<TaskEventV>,
    b: Seq<TaskEventV>,
    gate: Seq<char>,
    ty: Seq<char>,
)
    ensures
        gate_event_count(a + b, gate, ty) == gate_event_count(a, gate, ty) + gate_event_count(
            b,
            gate,
            ty,
        ),
    decreases b.len(),
{
    if b.len() == 0 {
        assert(a + b =~= a);
    } else {
        lemma_gate_event_count_concat(a, b.drop_last(), gate, ty);
        assert((a + b).drop_last() =~= a + b.drop_last());
    }
}

/// The liveness of the process of an agent can change its status: no cancellation of
/// the agent is on record, and it has left no final artifact that parses.
pub open spec fn liveness_matters(
    log: Seq<TaskEventV>,
    agent: Seq<char>,
    final_text: Option<Seq<char>>,
) -> bool {
    agent_event_count(log, agent, "agent.cancelled"@) == 0 && match final_text {
        Some(text) => parsed_json(text) is None,
        None => true,
    }
}

/// Where the liveness of the process does not matter, the status of the agent is the
/// same whatever is observed of its process.
pub proof fn law_status_without_probe(
    log: Seq<TaskEventV>,
    agent: Seq<char>,
    final_text: Option<Seq<char>>,
    pid_a: Option<bool>,
    pid_b: Option<bool>,
    state: AgentInstanceState,
)
    requires
        !liveness_matters(log, agent, final_text),
    ensures
        derived_status(
            agent_event_count(log, agent, "agent.cancelled"@) > 0,
            match final_text {
                Some(text) => parsed_json(text),
                None => None,
            },
            pid_a,
            state,
        ) == derived_status(
            agent_event_count(log, agent, "agent.cancelled"@) > 0,
            match final_text {
                Some(text) => parsed_json(text),
                None => None,
            },
            pid_b,
            state,
        ),
{
}

/// Tells whether the log holds an event of type `ty` for `agent`.
pub fn has_agent_event(log: &Vec<TaskEvent>, agent: &Vec<char>, ty: &Vec<char>) -> (r: bool)
    ensures
        r == (agent_event_count(views(log@), agent@, ty@) > 0),
{
    let mut found = false;
    let mut i: usize = 0;
    while i < log.len()
        invariant
            i <= log.len(),
            found == (agent_event_count(views(log@).take(i as int), agent@, ty@) > 0),
        decreases log.len() - i,
    {
        proof {
            assert(views(log@).take(i as int + 1).drop_last() =~= views(log@).take(i as int));
        }
        let e = &log[i];
        let names = match &e.agent_instance {
            Some(a) => string_is(a, agent),
            None => false,
        };
        if names && string_is(&e.event_type, ty) {
            found = true;
        }
        i += 1;
    }
    proof {
        assert(views(log@).take(log.len() as int) =~= views(log@));
    }
    found
}

/// Tells whether the process of an agent is to be probed: whether its liveness can
/// change the status of the agent.
pub fn probes_process(log: &Vec<TaskEvent>, agent_instance: &str, final_text: Option<&str>) -> (r:
    bool)
    ensures
        r == liveness_matters(
            views(log@),
            agent_instance@,
            match final_text {
                Some(t) => Some(t@),
                None => None,
            },
        ),
{
    if has_agent_event(log, &chars_of(agent_instance), &chars_of("agent.cancelled")) {
        return false;
    }
    match final_text {
        Some(text) => parse(text).is_none(),
        None => true,
    }
}

/// Tells whether the log holds an event of type `ty` for `gate`.
pub fn has_gate_event(log: &Vec<TaskEvent>, gate: &Vec<char>, ty: &Vec<char>) -> (r: bool)
    ensures
        r == (gate_event_count(views(log@), gate@, ty@) > 0),
{
    let mut found = false;
    let mut i: usize = 0;
    while i < log.len()
        invariant
            i <= log.len(),
            found == (gate_event_count(views(log@).take(i as int), gate@, ty@) > 0),
        decreases log.len() - i,
    {
        proof {
            assert(views(log@).take(i as int + 1).drop_last() =~= views(log@).take(i as int));
        }
        let e = &log[i];
        let names = match e.payload.str_at("gateId") {
            Some(g) => string_is(g, gate),
            None => false,
        };
        if names && string_is(&e.event_type, ty) {
            found = true;
        }
        i += 1;
    }
    proof {
        assert(views(log@).take(log.len() as int) =~= views(log@));
    }
    found
}

/// What reconciliation and joining read of a final artifact.
#[derive(Debug, Clone, PartialEq, Eq)]
pub struct WorkerSnapshot {
    pub status: String,
    pub summary: String,
    pub questions: Vec<String>,
    pub next_actions: Vec<String>,
}

/// The view of a [`WorkerSnapshot`].
pub struct WorkerSnapshotV {
    pub status: Seq<char>,
    pub summary: Seq<char>,
    pub questions: Seq<Seq<char>>,
    pub next_actions: Seq<Seq<char>>,
}

impl View for WorkerSnapshot {
    type V = WorkerSnapshotV;

    open spec fn view(&self) -> WorkerSnapshotV {
        WorkerSnapshotV {
            status: self.status@,
            summary: self.summary@,
            questions: views(self.questions@),
            next_actions: views(self.next_actions@),
        }
    }
}

/// The texts of the string values among `items`, in order.
pub open spec fn strings_among(items: Seq<JsonV>) -> Seq<Seq<char>>
    decreases items.len(),
{
    if items.len() == 0 {
        Seq::empty()
    } else {
        match items.last() {
            JsonV::Str(s) => strings_among(items.drop_last()).push(s),
            _ => strings_among(items.drop_last()),
        }
    }
}

/// The strings of the array member `key` of `doc`; none where there is no such array.
pub open spec fn string_list(doc: JsonV, key: Seq<char>) -> Seq<Seq<char>> {
    match doc.get(key) {
        Some(JsonV::Array(items)) => strings_among(items),
        _ => Seq::empty(),
    }
}

/// The text of the string member `key` of `doc`, or `default`.
pub open spec fn text_or(doc: JsonV, key: Seq<char>, default: Seq<char>) -> Seq<char> {
    match doc.text_at(key) {
        Some(s) => s,
        None => default,
    }
}

/// What is read of a final artifact; a missing one is reported as such.
pub open spec fn snapshot_of(doc: Option<JsonV>) -> WorkerSnapshotV {
    match doc {
        None => WorkerSnapshotV {
            status: "missing"@,
            summary: "final output is missing"@,
            questions: Seq::empty(),
            next_actions: Seq::empty(),
        },
        Some(d) => WorkerSnapshotV {
            status: text_or(d, "status"@, "failed"@),
            summary: text_or(d, "summary"@, ""@),
            questions: string_list(d, "questions"@),
            next_actions: string_list(d, "nextActions"@),
        },
    }
}

/// Reads the strings of the array member `key`.
pub fn read_string_list(doc: &Json, key: &str) -> (out: Vec<String>)
    ensures
        views(out@) == string_list(doc@, key@),
{
    let mut out: Vec<String> = Vec::new();
    proof {
        assert(views(out@) =~= Seq::<Seq<char>>::empty());
    }
    let items = match doc.get(key) {
        Some(v) => match v.as_array() {
            Some(items) => items,
            None => {
                return out;
            },
        },
        None => {
            return out;
        },
    };
    proof {
        lemma_list_view(items@);
    }
    let mut i: usize = 0;
    while i < items.len()
        invariant
            i <= items.len(),
            list_view(items@).len() == items.len(),
            forall|j: int| 0 <= j < items.len() ==> #[trigger] list_view(items@)[j] == items@[j]@,
            views(out@) == strings_among(list_view(items@).take(i as int)),
        decreases items.len() - i,
    {
        proof {
            assert(list_view(items@).take(i as int + 1).drop_last() =~= list_view(items@).take(
                i as int,
            ));
            assert(list_view(items@).take(i as int + 1).last() == items@[i as int]@);
        }
        match items[i].as_str() {
            Some(s) => {
                let c = copy_string(s);
                proof {
                    lemma_views_push(out@, c);
                }
                out.push(c);
            },
            None => {},
        }
        i += 1;
    }
    proof {
        assert(list_view(items@).take(items.len() as int) =~= list_view(items@));
    }
    out
}

/// Reads the string member `key`, or `default`.
pub fn read_text_or(doc: &Json, key: &str, default: &str) -> (out: String)
    ensures
        out@ == text_or(doc@, key@, default@),
{
    match doc.str_at(key) {
        Some(s) => copy_string(s),
        None => owned(default),
    }
}

/// Reads the parts of a final artifact that reconciliation and joining use.
pub fn read_snapshot(doc: Option<&Json>) -> (out: WorkerSnapshot)
    ensures
        out@ == snapshot_of(
            match doc {
                Some(d) => Some(d@),
                None => None,
            },
        ),
{
    match doc {
        None => {
            let out = WorkerSnapshot {
                status: owned("missing"),
                summary: owned("final output is missing"),
                questions: Vec::new(),
                next_actions: Vec::new(),
            };
            proof {
                assert(views(out.questions@) =~= Seq::<Seq<char>>::empty());
                assert(views(out.next_actions@) =~= Seq::<Seq<char>>::empty());
            }
            out
        },
        Some(d) => WorkerSnapshot {
            status: read_text_or(d, "status", "failed"),
            summary: read_text_or(d, "summary", ""),
            questions: read_string_list(d, "questions"),
            next_actions: read_string_list(d, "nextActions"),
        },
    }
}

/// The reason that a blocked gate gives: the first question, with the number of further
/// questions where there are any; else the trimmed summary; else the name of the agent.
pub open spec fn gate_reason(agent: Seq<char>, output: WorkerSnapshotV) -> Seq<char> {
    if output.questions.len() > 0 {
        if output.questions.len() == 1 {
            output.questions[0]
        } else {
            output.questions[0] + " (+"@ + decimal((output.questions.len() - 1) as nat)
                + " more)"@
        }
    } else if trim(output.summary).len() > 0 {
        trim(output.summary)
    } else {
        "blocked by "@ + agent
    }
}

/// Builds the reason that a blocked agent gives to its gate.
pub fn blocked_gate_reason(agent_instance: &str, output: &WorkerSnapshot) -> (r: String)
    ensures
        r@ == gate_reason(agent_instance@, output@),
{
    if output.questions.len() > 0 {
        let first = &output.questions[0];
        proof {
            assert(views(output.questions@)[0] == first@);
        }
        if output.questions.len() == 1 {
            return copy_string(first);
        }
        let mut out = chars_of(first.as_str());
        append_str(&mut out, " (+");
        push_decimal(&mut out, (output.questions.len() - 1) as u64);
        append_str(&mut out, " more)");
        return string_of(&out);
    }
    let summary = chars_of(output.summary.as_str());
    if !is_blank_text(&summary) {
        let t = trim_text(&summary);
        return string_of(&t);
    }
    let mut out = chars_of("blocked by ");
    append_str(&mut out, agent_instance);
    string_of(&out)
}

/// The identifier of an agent's gate.
pub open spec fn gate_id_for(agent: Seq<char>) -> Seq<char> {
    "gate-"@ + agent
}

/// Where a blocked gate sends the reader.
pub open spec fn gate_instructions() -> Seq<char> {
    "./shared/human-notes.md"@
}

/// The first index at or after `from` of a gate with the identifier `id`; the number of
/// gates if there is none.
pub open spec fn gate_index(gates: Seq<GateV>, id: Seq<char>, from: int) -> int
    decreases gates.len() - from,
{
    if from < 0 || from >= gates.len() {
        gates.len() as int
    } else if gates[from].id == id {
        from
    } else {
        gate_index(gates, id, from + 1)
    }
}

/// A gate as it stands once its agent is found blocked: a human approval, blocked for
/// `reason`, unresolved, and blocked since it first was.
pub open spec fn refreshed_gate(g: GateV, reason: Seq<char>, now: Timestamp) -> GateV {
    GateV {
        id: g.id,
        gate_type: GateType::HumanApproval,
        state: GateState::Blocked,
        reason: reason,
        instructions_ref: Some(gate_instructions()),
        blocked_at: if g.blocked_at is None {
            Some(now)
        } else {
            g.blocked_at
        },
        resolved_at: None,
        resolved_by: None,
    }
}

/// A gate as it is made for an agent found blocked for the first time.
pub open spec fn fresh_gate(id: Seq<char>, reason: Seq<char>, now: Timestamp) -> GateV {
    GateV {
        id: id,
        gate_type: GateType::HumanApproval,
        state: GateState::Blocked,
        reason: reason,
        instructions_ref: Some(gate_instructions()),
        blocked_at: Some(now),
        resolved_at: None,
        resolved_by: None,
    }
}

/// The gates after `id` was made or refreshed, and whether anything changed.
pub open spec fn upserted_gates(
    gates: Seq<GateV>,
    id: Seq<char>,
    reason: Seq<char>,
    now: Timestamp,
) -> (Seq<GateV>, bool) {
    let i = gate_index(gates, id, 0);
    if 0 <= i < gates.len() {
        (gates.update(i, refreshed_gate(gates[i], reason, now)), refreshed_gate(
            gates[i],
            reason,
            now,
        ) != gates[i])
    } else {
        (gates.push(fresh_gate(id, reason, now)), true)
    }
}

/// Finds the first gate with the identifier `id`.
pub fn find_gate(gates: &Vec<Gate>, id: &Vec<char>) -> (r: Option<usize>)
    ensures
        match r {
            Some(at) => at < gates.len() && gate_index(views(gates@), id@, 0) == at,
            None => gate_index(views(gates@), id@, 0) == gates.len(),
        },
{
    let mut i: usize = 0;
    while i < gates.len()
        invariant
            i <= gates.len(),
            gate_index(views(gates@), id@, 0) == gate_index(views(gates@), id@, i as int),
        decreases gates.len() - i,
    {
        if string_is(&gates[i].id, id) {
            return Some(i);
        }
        i += 1;
    }
    None
}

/// Makes or refreshes the blocked gate `gate_id`. Returns whether the gates changed.
pub fn upsert_blocked_gate(
    gates: &mut Vec<Gate>,
    gate_id: &Vec<char>,
    reason: &Vec<char>,
    now: Timestamp,
) -> (changed: bool)
    ensures
        views(final(gates)@) == upserted_gates(views(old(gates)@), gate_id@, reason@, now).0,
        changed == upserted_gates(views(old(gates)@), gate_id@, reason@, now).1,
{
    let instructions = chars_of("./shared/human-notes.md");
    let ghost before = gates@;
    match find_gate(gates, gate_id) {
        Some(at) => {
            let g = gates.remove(at);
            let same_instructions = match &g.instructions_ref {
                Some(r) => string_is(r, &instructions),
                None => false,
            };
            let changed = g.gate_type != GateType::HumanApproval || g.state != GateState::Blocked
                || !string_is(&g.reason, reason) || !same_instructions || g.blocked_at.is_none()
                || g.resolved_at.is_some() || g.resolved_by.is_some();
            let blocked_at = match g.blocked_at {
                Some(t) => Some(t),
                None => Some(now),
            };
            let next = Gate {
                id: g.id,
                gate_type: GateType::HumanApproval,
                state: GateState::Blocked,
                reason: string_of(reason),
                instructions_ref: Some(string_of(&instructions)),
                blocked_at: blocked_at,
                resolved_at: None,
                resolved_by: None,
            };
            proof {
                assert(next@ == refreshed_gate(before[at as int]@, reason@, now));
                assert(views(before.remove(at as int).insert(at as int, next)) =~= views(
                    before,
                ).update(at as int, next@));
            }
            gates.insert(at, next);
            changed
        },
        None => {
            let next = Gate {
                id: string_of(gate_id),
                gate_type: GateType::HumanApproval,
                state: GateState::Blocked,
                reason: string_of(reason),
                instructions_ref: Some(string_of(&instructions)),
                blocked_at: Some(now),
                resolved_at: None,
                resolved_by: None,
            };
            proof {
                lemma_views_push(before, next);
            }
            gates.push(next);
            true
        },
    }
}

/// A payload that names its agent: an object gets the member `agentInstance` unless it
/// has one; any other value is wrapped, as `value`, into an object that has it.
pub open spec fn payload_with_agent(payload: JsonV, agent: Seq<char>) -> JsonV {
    if payload is Object {
        payload.with_default("agentInstance"@, JsonV::Str(agent))
    } else {
        empty_object().with("agentInstance"@, JsonV::Str(agent)).with("value"@, payload)
    }
}

/// A payload that names its gate: as `payload_with_agent`, with the member `gateId`.
pub open spec fn payload_with_gate(payload: JsonV, gate: Seq<char>) -> JsonV {
    if payload is Object {
        payload.with_default("gateId"@, JsonV::Str(gate))
    } else {
        empty_object().with("gateId"@, JsonV::Str(gate)).with("value"@, payload)
    }
}

/// Makes a payload name its agent.
pub fn ensure_payload_agent_instance(payload: Json, agent_instance: &str) -> (r: Json)
    ensures
        r@ == payload_with_agent(payload@, agent_instance@),
{
    let mut payload = payload;
    if payload.is_object() {
        payload.set_default("agentInstance", Json::string(agent_instance));
        payload
    } else {
        let mut out = Json::object();
        out.set("agentInstance", Json::string(agent_instance));
        out.set("value", payload);
        out
    }
}

/// Makes a payload name its gate.
pub fn ensure_payload_gate_id(payload: Json, gate_id: &str) -> (r: Json)
    ensures
        r@ == payload_with_gate(payload@, gate_id@),
{
    let mut payload = payload;
    if payload.is_object() {
        payload.set_default("gateId", Json::string(gate_id));
        payload
    } else {
        let mut out = Json::object();
        out.set("gateId", Json::string(gate_id));
        out.set("value", payload);
        out
    }
}

/// The event that records a status of an agent.
pub open spec fn agent_event_view(
    task_id: Seq<char>,
    agent: Seq<char>,
    ty: Seq<char>,
    payload: JsonV,
    now: Timestamp,
) -> TaskEventV {
    TaskEventV {
        ts: now,
        event_type: ty,
        task_id: task_id,
        agent_instance: Some(agent),
        turn_id: None,
        payload: payload_with_agent(payload, agent),
        by: Some("orchestrator"@),
        path: None,
    }
}

/// Builds the event that records a status of an agent.
pub fn agent_event(
    task_id: &str,
    agent_instance: &str,
    event_type: &str,
    payload: Json,
    now: Timestamp,
) -> (e: TaskEvent)
    ensures
        e@ == agent_event_view(task_id@, agent_instance@, event_type@, payload@, now),
{
    TaskEvent {
        ts: now,
        event_type: owned(event_type),
        task_id: owned(task_id),
        agent_instance: Some(owned(agent_instance)),
        turn_id: None,
        payload: ensure_payload_agent_instance(payload, agent_instance),
        by: Some(owned("orchestrator")),
        path: None,
    }
}

/// The event that records a change of a gate.
pub open spec fn gate_event_view(
    task_id: Seq<char>,
    gate: Seq<char>,
    agent: Option<Seq<char>>,
    ty: Seq<char>,
    payload: JsonV,
    now: Timestamp,
) -> TaskEventV {
    TaskEventV {
        ts: now,
        event_type: ty,
        task_id: task_id,
        agent_instance: agent,
        turn_id: None,
        payload: match agent {
            Some(a) => payload_with_agent(payload_with_gate(payload, gate), a),
            None => payload_with_gate(payload, gate),
        },
        by: Some("orchestrator"@),
        path: None,
    }
}

/// Builds the event that records a change of a gate.
pub fn gate_event(
    task_id: &str,
    gate_id: &str,
    agent_instance: Option<&str>,
    event_type: &str,
    payload: Json,
    now: Timestamp,
) -> (e: TaskEvent)
    ensures
        e@ == gate_event_view(
            task_id@,
            gate_id@,
            match agent_instance {
                Some(a) => Some(a@),
                None => None,
            },
            event_type@,
            payload@,
            now,
        ),
{
    let with_gate = ensure_payload_gate_id(payload, gate_id);
    let (payload, agent) = match agent_instance {
        Some(a) => (ensure_payload_agent_instance(with_gate, a), Some(owned(a))),
        None => (with_gate, None),
    };
    TaskEvent {
        ts: now,
        event_type: owned(event_type),
        task_id: owned(task_id),
        agent_instance: agent,
        turn_id: None,
        payload: payload,
        by: Some(owned("orchestrator")),
        path: None,
    }
}

/// The running state of one reconciliation pass over the roster.
pub struct Pass {
    pub roster: Vec<AgentInstance>,
    pub gates: Vec<Gate>,
    pub emitted: Vec<TaskEvent>,
    pub infos: Vec<SubagentInfo>,
    pub any_blocked: bool,
    pub changed: bool,
}

/// The view of a [`Pass`].
pub struct PassV {
    pub roster: Seq<AgentInstanceV>,
    pub gates: Seq<GateV>,
    pub emitted: Seq<TaskEventV>,
    pub infos: Seq<SubagentInfoV>,
    pub any_blocked: bool,
    pub changed: bool,
}

impl View for Pass {
    type V = PassV;

    open spec fn view(&self) -> PassV {
        PassV {
            roster: views(self.roster@),
            gates: views(self.gates@),
            emitted: views(self.emitted@),
            infos: views(self.infos@),
            any_blocked: self.any_blocked,
            changed: self.changed,
        }
    }
}

/// The observation of the roster entry `idx`; nothing is known of an entry that the
/// caller gave no observation for.
pub open spec fn observation_at(obs: Seq<ObservationV>, idx: int) -> ObservationV {
    if 0 <= idx < obs.len() {
        obs[idx]
    } else {
        ObservationV { final_text: None, pid_alive: None }
    }
}

/// The parsed final artifact of an observation, where it has one that parses.
pub open spec fn final_doc_of(o: ObservationV) -> Option<JsonV> {
    match o.final_text {
        Some(t) => parsed_json(t),
        None => None,
    }
}

/// The pass with the event `ty` recorded for `agent`, unless the log or the pass holds
/// such an event already.
pub open spec fn with_agent_event(
    st: PassV,
    log: Seq<TaskEventV>,
    task_id: Seq<char>,
    agent: Seq<char>,
    ty: Seq<char>,
    now: Timestamp,
) -> PassV {
    if agent_event_count(log + st.emitted, agent, ty) > 0 {
        st
    } else {
        PassV {
            emitted: st.emitted.push(agent_event_view(task_id, agent, ty, empty_object(), now)),
            ..st
        }
    }
}

/// The payload of the event that records a blocked gate.
pub open spec fn blocked_payload(reason: Seq<char>) -> JsonV {
    empty_object().with("reason"@, JsonV::Str(reason))
}

/// The pass with the blocked agent's gate made or refreshed, and the event
/// `gate.blocked` recorded for that gate unless the log or the pass holds one already.
pub open spec fn with_blocked_gate(
    st: PassV,
    log: Seq<TaskEventV>,
    task_id: Seq<char>,
    agent: Seq<char>,
    doc: Option<JsonV>,
    now: Timestamp,
) -> PassV {
    let gate = gate_id_for(agent);
    let reason = gate_reason(agent, snapshot_of(doc));
    let up = upserted_gates(st.gates, gate, reason, now);
    let emitted = if gate_event_count(log + st.emitted, gate, "gate.blocked"@) > 0 {
        st.emitted
    } else {
        st.emitted.push(
            gate_event_view(
                task_id,
                gate,
                Some(agent),
                "gate.blocked"@,
                blocked_payload(reason),
                now,
            ),
        )
    };
    PassV { gates: up.0, emitted: emitted, changed: st.changed || up.1, ..st }
}

/// The pass after the roster entry `idx` was reconciled: its status is derived, its
/// persisted state aligned, the event of its status recorded once, and, where it is
/// blocked, its gate made or refreshed.
pub open spec fn agent_step(
    st: PassV,
    log: Seq<TaskEventV>,
    task_id: Seq<char>,
    obs: Seq<ObservationV>,
    now: Timestamp,
    idx: int,
) -> PassV {
    let a = st.roster[idx];
    let doc = final_doc_of(observation_at(obs, idx));
    let cancelled = agent_event_count(log, a.instance, "agent.cancelled"@) > 0;
    let status = derived_status(cancelled, doc, observation_at(obs, idx).pid_alive, a.state);
    let aligned = PassV {
        roster: st.roster.update(idx, AgentInstanceV { state: status.target_state(), ..a }),
        infos: st.infos.push(
            SubagentInfoV { agent_instance: a.instance, agent: a.agent, status: status },
        ),
        any_blocked: st.any_blocked || status == SubagentStatus::Blocked,
        changed: st.changed || a.state != status.target_state(),
        ..st
    };
    let recorded = match status.event_name() {
        Some(ty) => with_agent_event(aligned, log, task_id, a.instance, ty, now),
        None => aligned,
    };
    if status == SubagentStatus::Blocked {
        with_blocked_gate(recorded, log, task_id, a.instance, doc, now)
    } else {
        recorded
    }
}

/// The pass after the first `n` roster entries were reconciled in order.
pub open spec fn agents_pass(
    st: PassV,
    log: Seq<TaskEventV>,
    task_id: Seq<char>,
    obs: Seq<ObservationV>,
    now: Timestamp,
    n: int,
) -> PassV
    decreases n,
{
    if n <= 0 {
        st
    } else {
        agent_step(agents_pass(st, log, task_id, obs, now, n - 1), log, task_id, obs, now, n - 1)
    }
}

/// What a reconciliation yields.
pub struct ReconciledV {
    pub task: TaskFileV,
    pub emitted: Seq<TaskEventV>,
    pub infos: Seq<SubagentInfoV>,
    pub write: bool,
}

/// The state in which a pass starts.
pub open spec fn initial_pass(task: TaskFileV) -> PassV {
    PassV {
        roster: task.roster,
        gates: task.gates,
        emitted: Seq::empty(),
        infos: Seq::empty(),
        any_blocked: false,
        changed: false,
    }
}

/// The task state after a pass: a task that is created or working waits for input once
/// an agent is blocked; any other state stays.
pub open spec fn task_state_after(state: TaskState, any_blocked: bool) -> TaskState {
    if any_blocked && (state == TaskState::Created || state == TaskState::Working) {
        TaskState::InputRequired
    } else {
        state
    }
}

/// The reconciliation of a task against its event log and the observations of its
/// agents. The descriptor is to be written, and carries `now` as the time of its last
/// update, exactly where the roster, the gates or the task state changed.
pub open spec fn reconciled(
    task: TaskFileV,
    log: Seq<TaskEventV>,
    obs: Seq<ObservationV>,
    now: Timestamp,
) -> ReconciledV {
    let end = agents_pass(initial_pass(task), log, task.id, obs, now, task.roster.len() as int);
    let state = task_state_after(task.state, end.any_blocked);
    let write = end.changed || state != task.state;
    ReconciledV {
        task: TaskFileV {
            roster: end.roster,
            gates: end.gates,
            state: state,
            updated_at: if write {
                task.updated_at.later(now)
            } else {
                task.updated_at
            },
            ..task
        },
        emitted: end.emitted,
        infos: end.infos,
        write: write,
    }
}

/// What `reconcile` hands back: the descriptor, the events to append to the log, the
/// status of each agent, and whether the descriptor is to be written.
#[derive(Debug, Clone, PartialEq, Eq)]
pub struct Reconciliation {
    pub task: TaskFile,
    pub events: Vec<TaskEvent>,
    pub subagents: Vec<SubagentInfo>,
    pub changed: bool,
}

/// Reconciles the roster entry `idx`.
pub fn reconcile_agent(
    pass: &mut Pass,
    log: &Vec<TaskEvent>,
    task_id: &str,
    observations: &Vec<Observation>,
    now: Timestamp,
    idx: usize,
)
    requires
        idx < old(pass).roster.len(),
    ensures
        final(pass)@ == agent_step(old(pass)@, views(log@), task_id@, views(observations@), now, idx as int),
        final(pass).roster.len() == old(pass).roster.len(),
{
    let ghost st0 = pass@;
    let ghost logv = views(log@);
    let entry = pass.roster.remove(idx);
    let instance = chars_of(entry.instance.as_str());
    let doc: Option<Json> = if idx < observations.len() {
        match &observations[idx].final_text {
            Some(t) => parse(t.as_str()),
            None => None,
        }
    } else {
        None
    };
    let pid_alive: Option<bool> = if idx < observations.len() {
        observations[idx].pid_alive
    } else {
        None
    };
    let ghost docv: Option<JsonV> = match &doc {
        Some(d) => Some(d@),
        None => None,
    };
    proof {
        assert(st0.roster[idx as int] == entry@);
        assert(docv == final_doc_of(observation_at(views(observations@), idx as int)));
    }
    let cancelled_type = chars_of("agent.cancelled");
    let cancelled = has_agent_event(log, &instance, &cancelled_type);
    let status = derive_status(cancelled, doc.as_ref(), pid_alive, entry.state);
    let target = status.roster_state();
    if entry.state != target {
        pass.changed = true;
    }
    if status == SubagentStatus::Blocked {
        pass.any_blocked = true;
    }
    let info = SubagentInfo {
        agent_instance: copy_string(&entry.instance),
        agent: copy_string(&entry.agent),
        status: status,
    };
    let next = AgentInstance {
        instance: entry.instance,
        agent: entry.agent,
        state: target,
        assigned_milestone: entry.assigned_milestone,
        skills: entry.skills,
    };
    proof {
        assert(views(pass.roster@.insert(idx as int, next)) =~= st0.roster.update(
            idx as int,
            AgentInstanceV { state: target, ..st0.roster[idx as int] },
        ));
        lemma_views_push(pass.infos@, info);
    }
    pass.roster.insert(idx, next);
    pass.infos.push(info);
    let instance_str = string_of(&instance);
    match status.event_type() {
        Some(ty) => {
            let tyv = chars_of(ty);
            proof {
                lemma_agent_event_count_concat(logv, views(pass.emitted@), instance@, ty@);
            }
            let seen = has_agent_event(log, &instance, &tyv) || has_agent_event(
                &pass.emitted,
                &instance,
                &tyv,
            );
            if !seen {
                let e = agent_event(task_id, instance_str.as_str(), ty, Json::object(), now);
                proof {
                    lemma_views_push(pass.emitted@, e);
                }
                pass.emitted.push(e);
            }
        },
        None => {},
    }
    if status == SubagentStatus::Blocked {
        let mut gate_id = chars_of("gate-");
        append_text(&mut gate_id, &instance);
        let snapshot = read_snapshot(doc.as_ref());
        let reason = blocked_gate_reason(instance_str.as_str(), &snapshot);
        let reasonv = chars_of(reason.as_str());
        let gate_changed = upsert_blocked_gate(&mut pass.gates, &gate_id, &reasonv, now);
        if gate_changed {
            pass.changed = true;
        }
        let ty = chars_of("gate.blocked");
        proof {
            lemma_gate_event_count_concat(logv, views(pass.emitted@), gate_id@, ty@);
        }
        let seen = has_gate_event(log, &gate_id, &ty) || has_gate_event(
            &pass.emitted,
            &gate_id,
            &ty,
        );
        if !seen {
            let mut payload = Json::object();
            payload.set("reason", Json::Str(reason));
            let gate_str = string_of(&gate_id);
            let e = gate_event(
                task_id,
                gate_str.as_str(),
                Some(instance_str.as_str()),
                "gate.blocked",
                payload,
                now,
            );
            proof {
                lemma_views_push(pass.emitted@, e);
            }
            pass.emitted.push(e);
        }
    }
}

/// Reconciles a task against its event log and the observations of its agents, one
/// observation for each roster entry, in roster order.
///
/// The result holds the descriptor as it is to stand, the events that are to be appended
/// to the log, the status of each agent in roster order, and whether the descriptor
/// changed and is to be written.
pub fn reconcile(
    task: TaskFile,
    log: &Vec<TaskEvent>,
    observations: &Vec<Observation>,
    now: Timestamp,
) -> (out: Reconciliation)
    ensures
        out.task@ == reconciled(task@, views(log@), views(observations@), now).task,
        views(out.events@) == reconciled(task@, views(log@), views(observations@), now).emitted,
        views(out.subagents@) == reconciled(task@, views(log@), views(observations@), now).infos,
        out.changed == reconciled(task@, views(log@), views(observations@), now).write,
{
    let ghost t0 = task@;
    let TaskFile {
        id,
        title,
        description,
        topology,
        state,
        created_at,
        updated_at,
        milestones,
        roster,
        gates,
        config,
    } = task;
    let mut pass = Pass {
        roster: roster,
        gates: gates,
        emitted: Vec::new(),
        infos: Vec::new(),
        any_blocked: false,
        changed: false,
    };
    proof {
        assert(pass@.emitted =~= Seq::<TaskEventV>::empty());
        assert(pass@.infos =~= Seq::<SubagentInfoV>::empty());
        assert(pass@ == initial_pass(t0));
    }
    let n = pass.roster.len();
    let mut idx: usize = 0;
    while idx < n
        invariant
            idx <= n,
            n == pass.roster.len(),
            n == t0.roster.len(),
            id@ == t0.id,
            pass@ == agents_pass(
                initial_pass(t0),
                views(log@),
                t0.id,
                views(observations@),
                now,
                idx as int,
            ),
        decreases n - idx,
    {
        reconcile_agent(&mut pass, log, id.as_str(), observations, now, idx);
        idx += 1;
    }
    let next_state = if pass.any_blocked && (state == TaskState::Created || state
        == TaskState::Working) {
        TaskState::InputRequired
    } else {
        state
    };
    let changed = pass.changed || next_state != state;
    let Pass { roster, gates, emitted, infos, any_blocked, changed: _ } = pass;
    Reconciliation {
        task: TaskFile {
            id: id,
            title: title,
            description: description,
            topology: topology,
            state: next_state,
            created_at: created_at,
            updated_at: if changed {
                updated_at.later_of(now)
            } else {
                updated_at
            },
            milestones: milestones,
            roster: roster,
            gates: gates,
            config: config,
        },
        events: emitted,
        subagents: infos,
        changed: changed,
    }
}

} // verus!
