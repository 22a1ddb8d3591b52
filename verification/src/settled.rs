//! Reconciliation comes to rest: a task that was reconciled, reconciled again against
//! the same observations and the log that the first reconciliation extended, changes
//! nothing.

use vstd::prelude::*;

use crate::reconcile::{
    agent_event_count, agent_event_view, agent_step, agents_pass, blocked_payload, derived_status,
    final_doc_of, fresh_gate, gate_event_count, gate_event_view, gate_id_for, gate_index,
    gate_instructions, gate_reason, initial_pass, is_agent_event, is_gate_event, observation_at,
    reconciled, refreshed_gate, snapshot_of, task_state_after, upserted_gates, with_agent_event,
    with_blocked_gate, ObservationV, PassV, SubagentInfoV, SubagentStatus,
};
use crate::reconcile_laws::{
    lemma_agent_event_count_push, lemma_gate_event_count_push, lemma_gate_payload_names_gate,
};
use crate::task::{
    AgentInstanceState, AgentInstanceV, GateState, GateType, GateV, TaskEventV, TaskFileV,
    Timestamp,
};

verus! {

/// The status of the roster entry `j`, as reconciliation derives it.
pub open spec fn status_at(
    roster: Seq<AgentInstanceV>,
    log: Seq<TaskEventV>,
    obs: Seq<ObservationV>,
    j: int,
) -> SubagentStatus {
    derived_status(
        agent_event_count(log, roster[j].instance, "agent.cancelled"@) > 0,
        final_doc_of(observation_at(obs, j)),
        observation_at(obs, j).pid_alive,
        roster[j].state,
    )
}

/// The reason that the roster entry `j` gives to its gate where it is blocked.
pub open spec fn reason_at(roster: Seq<AgentInstanceV>, obs: Seq<ObservationV>, j: int) -> Seq<char> {
    gate_reason(roster[j].instance, snapshot_of(final_doc_of(observation_at(obs, j))))
}

/// A gate stands as reconciliation leaves it for a blocked agent.
pub open spec fn is_blocked_gate(g: GateV, reason: Seq<char>) -> bool {
    &&& g.gate_type == GateType::HumanApproval
    &&& g.state == GateState::Blocked
    &&& g.reason == reason
    &&& g.instructions_ref == Some(gate_instructions())
    &&& g.blocked_at is Some
    &&& g.resolved_at is None
    &&& g.resolved_by is None
}

/// The first gate of the identifier `id` stands as reconciliation leaves it.
pub open spec fn gate_settled(gates: Seq<GateV>, id: Seq<char>, reason: Seq<char>) -> bool {
    0 <= gate_index(gates, id, 0) < gates.len() && is_blocked_gate(
        gates[gate_index(gates, id, 0)],
        reason,
    )
}

/// Nothing is left to do for the roster entry `j`: its persisted state is the one of its
/// status, the log holds the event of its status, and where it is blocked, its gate stands
/// and the log holds the event of that gate.
pub open spec fn entry_settled(
    roster: Seq<AgentInstanceV>,
    gates: Seq<GateV>,
    log: Seq<TaskEventV>,
    obs: Seq<ObservationV>,
    j: int,
) -> bool {
    let a = roster[j];
    let s = status_at(roster, log, obs, j);
    &&& a.state == s.target_state()
    &&& (s.event_name() is Some ==> agent_event_count(log, a.instance, s.event_name()->0) > 0)
    &&& (s == SubagentStatus::Blocked ==> gate_settled(
        gates,
        gate_id_for(a.instance),
        reason_at(roster, obs, j),
    ) && gate_event_count(log, gate_id_for(a.instance), "gate.blocked"@) > 0)
}

/// One of the first `n` roster entries is blocked.
pub open spec fn blocked_among(
    roster: Seq<AgentInstanceV>,
    log: Seq<TaskEventV>,
    obs: Seq<ObservationV>,
    n: int,
) -> bool
    decreases n,
{
    if n <= 0 {
        false
    } else {
        blocked_among(roster, log, obs, n - 1) || status_at(roster, log, obs, n - 1)
            == SubagentStatus::Blocked
    }
}

/// Nothing is left to do for a task: every roster entry is settled, and the task waits
/// for input where an agent is blocked and it could.
pub open spec fn is_settled(task: TaskFileV, log: Seq<TaskEventV>, obs: Seq<ObservationV>) -> bool {
    &&& forall|j: int|
        0 <= j < task.roster.len() ==> #[trigger] entry_settled(task.roster, task.gates, log, obs, j)
    &&& task_state_after(
        task.state,
        blocked_among(task.roster, log, obs, task.roster.len() as int),
    ) == task.state
}

/// A pass over a settled task leaves everything as it is.
pub proof fn lemma_settled_pass(
    task: TaskFileV,
    log: Seq<TaskEventV>,
    obs: Seq<ObservationV>,
    now: Timestamp,
    k: int,
)
    requires
        is_settled(task, log, obs),
        0 <= k <= task.roster.len(),
    ensures
        ({
            let end = agents_pass(initial_pass(task), log, task.id, obs, now, k);
            &&& end.roster == task.roster
            &&& end.gates == task.gates
            &&& end.emitted == Seq::<TaskEventV>::empty()
            &&& !end.changed
            &&& end.any_blocked == blocked_among(task.roster, log, obs, k)
            &&& end.infos.len() == k
        }),
    decreases k,
{
    if k > 0 {
        lemma_settled_pass(task, log, obs, now, k - 1);
        let st = agents_pass(initial_pass(task), log, task.id, obs, now, k - 1);
        let j = k - 1;
        let a = task.roster[j];
        assert(entry_settled(task.roster, task.gates, log, obs, j));
        let s = status_at(task.roster, log, obs, j);
        assert(log + st.emitted =~= log);
        assert(st.roster.update(j, AgentInstanceV { state: s.target_state(), ..a }) =~= st.roster);
        if s == SubagentStatus::Blocked {
            let id = gate_id_for(a.instance);
            let reason = reason_at(task.roster, obs, j);
            let at = gate_index(task.gates, id, 0);
            lemma_gate_index(task.gates, id, 0);
            assert(refreshed_gate(task.gates[at], reason, now) == task.gates[at]);
            assert(task.gates.update(at, task.gates[at]) =~= task.gates);
        }
    }
}

/// The index that `gate_index` gives lies within `from ..= len`, and names a gate of the
/// identifier where it is an index.
pub proof fn lemma_gate_index(gates: Seq<GateV>, id: Seq<char>, from: int)
    requires
        0 <= from <= gates.len(),
    ensures
        from <= gate_index(gates, id, from) <= gates.len(),
        gate_index(gates, id, from) < gates.len() ==> gates[gate_index(gates, id, from)].id == id,
        forall|j: int| from <= j < gate_index(gates, id, from) ==> (#[trigger] gates[j]).id != id,
    decreases gates.len() - from,
{
    if from < gates.len() && gates[from].id != id {
        lemma_gate_index(gates, id, from + 1);
    }
}

/// A settled task is a fixed point of reconciliation: reconciling it records no event,
/// asks for no write and leaves the descriptor as it is, whatever the time.
pub proof fn law_settled_task_stays(
    task: TaskFileV,
    log: Seq<TaskEventV>,
    obs: Seq<ObservationV>,
    now: Timestamp,
)
    requires
        is_settled(task, log, obs),
    ensures
        reconciled(task, log, obs, now).emitted == Seq::<TaskEventV>::empty(),
        !reconciled(task, log, obs, now).write,
        reconciled(task, log, obs, now).task == task,
{
    lemma_settled_pass(task, log, obs, now, task.roster.len() as int);
}

/// No two roster entries have one name.
pub open spec fn distinct_instances(roster: Seq<AgentInstanceV>) -> bool {
    forall|i: int, j: int|
        0 <= i < j < roster.len() ==> (#[trigger] roster[i]).instance != (
        #[trigger] roster[j]).instance
}

/// The roster entry `j` is in the window between its entry into the roster and the
/// writing of its pid file: it is pending or dormant, no cancellation is on record for it,
/// and neither a final artifact that parses nor a pid file is there.
pub open spec fn in_launch_window(
    roster: Seq<AgentInstanceV>,
    log: Seq<TaskEventV>,
    obs: Seq<ObservationV>,
    j: int,
) -> bool {
    &&& agent_event_count(log, roster[j].instance, "agent.cancelled"@) == 0
    &&& final_doc_of(observation_at(obs, j)) is None
    &&& observation_at(obs, j).pid_alive is None
    &&& (roster[j].state == AgentInstanceState::Pending || roster[j].state
        == AgentInstanceState::Dormant)
}

/// The roster entry aligned with a status.
pub open spec fn aligned_entry(a: AgentInstanceV, s: SubagentStatus) -> AgentInstanceV {
    AgentInstanceV { state: s.target_state(), ..a }
}

/// The names of the events of the statuses differ from `agent.cancelled`, but for the
/// one of a cancellation.
proof fn lemma_cancelled_name(s: SubagentStatus)
    ensures
        s.event_name() == Some("agent.cancelled"@) <==> s == SubagentStatus::Cancelled,
        "gate.blocked"@ != "agent.cancelled"@,
{
    reveal_strlit("agent.cancelled");
    reveal_strlit("agent.blocked");
    reveal_strlit("agent.completed");
    reveal_strlit("agent.failed");
    reveal_strlit("gate.blocked");
    assert("agent.cancelled"@.len() == 15 && "agent.blocked"@.len() == 13);
    assert("agent.completed"@.len() == 15 && "agent.failed"@.len() == 12);
    assert("gate.blocked"@.len() == 12);
    assert("agent.cancelled"@[7] == 'a' && "agent.completed"@[7] == 'o');
}

/// After a pass over the first `k` roster entries, those entries are aligned with their
/// status, the others are as they were, and the pass knows whether one of the first `k`
/// is blocked.
pub proof fn lemma_pass_roster(
    task: TaskFileV,
    log: Seq<TaskEventV>,
    obs: Seq<ObservationV>,
    now: Timestamp,
    k: int,
)
    requires
        0 <= k <= task.roster.len(),
    ensures
        ({
            let end = agents_pass(initial_pass(task), log, task.id, obs, now, k);
            &&& end.roster.len() == task.roster.len()
            &&& forall|j: int|
                0 <= j < task.roster.len() ==> #[trigger] end.roster[j] == if j < k {
                    aligned_entry(task.roster[j], status_at(task.roster, log, obs, j))
                } else {
                    task.roster[j]
                }
            &&& end.any_blocked == blocked_among(task.roster, log, obs, k)
        }),
    decreases k,
{
    if k > 0 {
        lemma_pass_roster(task, log, obs, now, k - 1);
        let st = agents_pass(initial_pass(task), log, task.id, obs, now, k - 1);
        assert(st.roster[k - 1] == task.roster[k - 1]);
        let end = agent_step(st, log, task.id, obs, now, k - 1);
        assert forall|j: int| 0 <= j < task.roster.len() implies #[trigger] end.roster[j] == if j
            < k {
            aligned_entry(task.roster[j], status_at(task.roster, log, obs, j))
        } else {
            task.roster[j]
        } by {
            assert(st.roster[j] == if j < k - 1 {
                aligned_entry(task.roster[j], status_at(task.roster, log, obs, j))
            } else {
                task.roster[j]
            });
        }
    }
}

/// The event of the status that one step of a pass may add.
pub open spec fn step_agent_event(
    st: PassV,
    log: Seq<TaskEventV>,
    task_id: Seq<char>,
    obs: Seq<ObservationV>,
    now: Timestamp,
    idx: int,
) -> Seq<TaskEventV> {
    let s = status_at(st.roster, log, obs, idx);
    let a = st.roster[idx];
    if s.event_name() is Some && !(agent_event_count(log + st.emitted, a.instance, s.event_name()->0)
        > 0) {
        seq![agent_event_view(task_id, a.instance, s.event_name()->0, crate::json::empty_object(), now)]
    } else {
        Seq::empty()
    }
}

/// The event of a blocked gate that one step of a pass may add.
pub open spec fn step_gate_event(
    st: PassV,
    log: Seq<TaskEventV>,
    task_id: Seq<char>,
    obs: Seq<ObservationV>,
    now: Timestamp,
    idx: int,
) -> Seq<TaskEventV> {
    let s = status_at(st.roster, log, obs, idx);
    let a = st.roster[idx];
    let mid = st.emitted + step_agent_event(st, log, task_id, obs, now, idx);
    if s == SubagentStatus::Blocked && !(gate_event_count(
        log + mid,
        gate_id_for(a.instance),
        "gate.blocked"@,
    ) > 0) {
        seq![
            gate_event_view(
                task_id,
                gate_id_for(a.instance),
                Some(a.instance),
                "gate.blocked"@,
                blocked_payload(reason_at(st.roster, obs, idx)),
                now,
            ),
        ]
    } else {
        Seq::empty()
    }
}

/// What one step of a pass does to the events and to the gates.
pub proof fn lemma_step_shape(
    st: PassV,
    log: Seq<TaskEventV>,
    task_id: Seq<char>,
    obs: Seq<ObservationV>,
    now: Timestamp,
    idx: int,
)
    ensures
        agent_step(st, log, task_id, obs, now, idx).emitted == st.emitted + step_agent_event(
            st,
            log,
            task_id,
            obs,
            now,
            idx,
        ) + step_gate_event(st, log, task_id, obs, now, idx),
        agent_step(st, log, task_id, obs, now, idx).gates == if status_at(st.roster, log, obs, idx)
            == SubagentStatus::Blocked {
            upserted_gates(
                st.gates,
                gate_id_for(st.roster[idx].instance),
                reason_at(st.roster, obs, idx),
                now,
            ).0
        } else {
            st.gates
        },
{
    let next = agent_step(st, log, task_id, obs, now, idx);
    let a = step_agent_event(st, log, task_id, obs, now, idx);
    let g = step_gate_event(st, log, task_id, obs, now, idx);
    let s = status_at(st.roster, log, obs, idx);
    let entry = st.roster[idx];
    let aligned = PassV {
        roster: st.roster.update(idx, AgentInstanceV { state: s.target_state(), ..entry }),
        infos: st.infos.push(
            SubagentInfoV { agent_instance: entry.instance, agent: entry.agent, status: s },
        ),
        any_blocked: st.any_blocked || s == SubagentStatus::Blocked,
        changed: st.changed || entry.state != s.target_state(),
        ..st
    };
    let recorded = match s.event_name() {
        Some(ty) => with_agent_event(aligned, log, task_id, entry.instance, ty, now),
        None => aligned,
    };
    assert(recorded.emitted =~= st.emitted + a);
    if s == SubagentStatus::Blocked {
        let last = with_blocked_gate(
            recorded,
            log,
            task_id,
            entry.instance,
            final_doc_of(observation_at(obs, idx)),
            now,
        );
        assert(last.emitted =~= recorded.emitted + g);
        assert(next == last);
    } else {
        assert(next == recorded);
        assert(recorded.emitted + g =~= recorded.emitted);
    }
}

/// Counting over a log and one more event.
proof fn lemma_count_one(
    log: Seq<TaskEventV>,
    more: Seq<TaskEventV>,
    agent: Seq<char>,
    ty: Seq<char>,
)
    requires
        more.len() <= 1,
    ensures
        agent_event_count(log + more, agent, ty) == agent_event_count(log, agent, ty) + if more.len()
            == 1 && is_agent_event(more[0], agent, ty) {
            1nat
        } else {
            0nat
        },
{
    if more.len() == 1 {
        assert(log + more =~= log.push(more[0]));
        lemma_agent_event_count_push(log, more[0], agent, ty);
    } else {
        assert(log + more =~= log);
    }
}

/// Counting over a log and one more event.
proof fn lemma_gate_count_one(
    log: Seq<TaskEventV>,
    more: Seq<TaskEventV>,
    gate: Seq<char>,
    ty: Seq<char>,
)
    requires
        more.len() <= 1,
    ensures
        gate_event_count(log + more, gate, ty) == gate_event_count(log, gate, ty) + if more.len()
            == 1 && is_gate_event(more[0], gate, ty) {
            1nat
        } else {
            0nat
        },
{
    if more.len() == 1 {
        assert(log + more =~= log.push(more[0]));
        lemma_gate_event_count_push(log, more[0], gate, ty);
    } else {
        assert(log + more =~= log);
    }
}

/// What one step of a pass does to the count of the events of an agent and of a gate.
pub proof fn lemma_step_counts(
    st: PassV,
    log: Seq<TaskEventV>,
    task_id: Seq<char>,
    obs: Seq<ObservationV>,
    now: Timestamp,
    idx: int,
    agent: Seq<char>,
    ty: Seq<char>,
)
    ensures
        ({
            let next = agent_step(st, log, task_id, obs, now, idx);
            let a = step_agent_event(st, log, task_id, obs, now, idx);
            let g = step_gate_event(st, log, task_id, obs, now, idx);
            &&& agent_event_count(log + next.emitted, agent, ty) == agent_event_count(
                log + st.emitted,
                agent,
                ty,
            ) + (if a.len() == 1 && is_agent_event(a[0], agent, ty) {
                1nat
            } else {
                0nat
            }) + (if g.len() == 1 && is_agent_event(g[0], agent, ty) {
                1nat
            } else {
                0nat
            })
            &&& gate_event_count(log + next.emitted, agent, ty) == gate_event_count(
                log + st.emitted,
                agent,
                ty,
            ) + (if a.len() == 1 && is_gate_event(a[0], agent, ty) {
                1nat
            } else {
                0nat
            }) + (if g.len() == 1 && is_gate_event(g[0], agent, ty) {
                1nat
            } else {
                0nat
            })
        }),
{
    let next = agent_step(st, log, task_id, obs, now, idx);
    let a = step_agent_event(st, log, task_id, obs, now, idx);
    let g = step_gate_event(st, log, task_id, obs, now, idx);
    lemma_step_shape(st, log, task_id, obs, now, idx);
    assert(log + next.emitted =~= ((log + st.emitted) + a) + g);
    lemma_count_one(log + st.emitted, a, agent, ty);
    lemma_count_one((log + st.emitted) + a, g, agent, ty);
    lemma_gate_count_one(log + st.emitted, a, agent, ty);
    lemma_gate_count_one((log + st.emitted) + a, g, agent, ty);
}

/// A pass never takes an event back: the counts over the log and what was recorded grow
/// with the pass.
pub proof fn lemma_pass_grows(
    task: TaskFileV,
    log: Seq<TaskEventV>,
    obs: Seq<ObservationV>,
    now: Timestamp,
    k: int,
    m: int,
    name: Seq<char>,
    ty: Seq<char>,
)
    requires
        0 <= k <= m,
    ensures
        agent_event_count(
            log + agents_pass(initial_pass(task), log, task.id, obs, now, k).emitted,
            name,
            ty,
        ) <= agent_event_count(
            log + agents_pass(initial_pass(task), log, task.id, obs, now, m).emitted,
            name,
            ty,
        ),
        gate_event_count(
            log + agents_pass(initial_pass(task), log, task.id, obs, now, k).emitted,
            name,
            ty,
        ) <= gate_event_count(
            log + agents_pass(initial_pass(task), log, task.id, obs, now, m).emitted,
            name,
            ty,
        ),
    decreases m - k,
{
    if k < m {
        lemma_pass_grows(task, log, obs, now, k, m - 1, name, ty);
        let st = agents_pass(initial_pass(task), log, task.id, obs, now, m - 1);
        lemma_step_counts(st, log, task.id, obs, now, m - 1, name, ty);
    }
}

/// A pass records a cancellation for an agent only where one is on record already.
pub proof fn lemma_pass_cancelled(
    task: TaskFileV,
    log: Seq<TaskEventV>,
    obs: Seq<ObservationV>,
    now: Timestamp,
    k: int,
    agent: Seq<char>,
)
    requires
        0 <= k <= task.roster.len(),
    ensures
        (agent_event_count(
            log + agents_pass(initial_pass(task), log, task.id, obs, now, k).emitted,
            agent,
            "agent.cancelled"@,
        ) > 0) == (agent_event_count(log, agent, "agent.cancelled"@) > 0),
    decreases k,
{
    if k > 0 {
        lemma_pass_cancelled(task, log, obs, now, k - 1, agent);
        lemma_pass_roster(task, log, obs, now, k - 1);
        let st = agents_pass(initial_pass(task), log, task.id, obs, now, k - 1);
        assert(st.roster[k - 1] == task.roster[k - 1]);
        lemma_step_counts(st, log, task.id, obs, now, k - 1, agent, "agent.cancelled"@);
        lemma_cancelled_name(status_at(st.roster, log, obs, k - 1));
    } else {
        assert(log + initial_pass(task).emitted =~= log);
    }
}

/// After a pass over the first `k` roster entries, the event of the status of each of
/// them is on record, and so is the event of its gate where it is blocked.
pub proof fn lemma_pass_events(
    task: TaskFileV,
    log: Seq<TaskEventV>,
    obs: Seq<ObservationV>,
    now: Timestamp,
    k: int,
    j: int,
)
    requires
        0 <= j < k <= task.roster.len(),
    ensures
        ({
            let end = agents_pass(initial_pass(task), log, task.id, obs, now, k);
            let s = status_at(task.roster, log, obs, j);
            &&& (s.event_name() is Some ==> agent_event_count(
                log + end.emitted,
                task.roster[j].instance,
                s.event_name()->0,
            ) > 0)
            &&& (s == SubagentStatus::Blocked ==> gate_event_count(
                log + end.emitted,
                gate_id_for(task.roster[j].instance),
                "gate.blocked"@,
            ) > 0)
        }),
{
    let st = agents_pass(initial_pass(task), log, task.id, obs, now, j);
    lemma_pass_roster(task, log, obs, now, j);
    assert(st.roster[j] == task.roster[j]);
    let s = status_at(task.roster, log, obs, j);
    let inst = task.roster[j].instance;
    let a = step_agent_event(st, log, task.id, obs, now, j);
    let g = step_gate_event(st, log, task.id, obs, now, j);
    if s.event_name() is Some {
        let ty = s.event_name()->0;
        lemma_step_counts(st, log, task.id, obs, now, j, inst, ty);
        lemma_pass_grows(task, log, obs, now, j + 1, k, inst, ty);
    }
    if s == SubagentStatus::Blocked {
        let gate = gate_id_for(inst);
        lemma_step_counts(st, log, task.id, obs, now, j, gate, "gate.blocked"@);
        lemma_gate_payload_names_gate(reason_at(st.roster, obs, j), gate, inst);
        lemma_count_one(log + st.emitted, a, gate, "gate.blocked"@);
        lemma_gate_count_one(log + st.emitted, a, gate, "gate.blocked"@);
        assert((log + st.emitted) + a =~= log + (st.emitted + a));
        lemma_pass_grows(task, log, obs, now, j + 1, k, gate, "gate.blocked"@);
    }
}

/// Two agents of different names have gates of different identifiers.
pub proof fn lemma_gate_ids_differ(a: Seq<char>, b: Seq<char>)
    requires
        a != b,
    ensures
        gate_id_for(a) != gate_id_for(b),
{
    let p = "gate-"@;
    assert((p + a).skip(p.len() as int) =~= a);
    assert((p + b).skip(p.len() as int) =~= b);
}

/// Two lists of gates with the same identifiers in the same places find a gate at the
/// same place.
proof fn lemma_gate_index_same_ids(g1: Seq<GateV>, g2: Seq<GateV>, id: Seq<char>, from: int)
    requires
        g1.len() == g2.len(),
        forall|i: int| 0 <= i < g1.len() ==> (#[trigger] g1[i]).id == g2[i].id,
        0 <= from <= g1.len(),
    ensures
        gate_index(g1, id, from) == gate_index(g2, id, from),
    decreases g1.len() - from,
{
    if from < g1.len() {
        assert(g1[from].id == g2[from].id);
        if g1[from].id != id {
            lemma_gate_index_same_ids(g1, g2, id, from + 1);
        }
    }
}

/// Where a gate is found after one more gate was added at the end.
proof fn lemma_gate_index_push(gates: Seq<GateV>, x: GateV, id: Seq<char>, from: int)
    requires
        0 <= from <= gates.len(),
    ensures
        gate_index(gates.push(x), id, from) == if gate_index(gates, id, from) < gates.len() {
            gate_index(gates, id, from)
        } else if x.id == id {
            gates.len() as int
        } else {
            gates.len() as int + 1
        },
    decreases gates.len() - from,
{
    let more = gates.push(x);
    reveal_with_fuel(gate_index, 3);
    if from < gates.len() {
        assert(more[from] == gates[from]);
        if gates[from].id != id {
            lemma_gate_index_push(gates, x, id, from + 1);
        }
    } else {
        assert(more[from] == x);
    }
}

/// After a gate was made or refreshed it stands as reconciliation leaves it.
proof fn lemma_upsert_settles(gates: Seq<GateV>, id: Seq<char>, reason: Seq<char>, now: Timestamp)
    ensures
        gate_settled(upserted_gates(gates, id, reason, now).0, id, reason),
{
    let at = gate_index(gates, id, 0);
    lemma_gate_index(gates, id, 0);
    let next = upserted_gates(gates, id, reason, now).0;
    if at < gates.len() {
        assert forall|i: int| 0 <= i < next.len() implies (#[trigger] next[i]).id == gates[i].id by {
            if i != at {
                assert(next[i] == gates[i]);
            }
        }
        lemma_gate_index_same_ids(next, gates, id, 0);
    } else {
        lemma_gate_index_push(gates, fresh_gate(id, reason, now), id, 0);
    }
}

/// Making or refreshing a gate leaves every gate of another identifier as it stands.
proof fn lemma_upsert_keeps(
    gates: Seq<GateV>,
    id: Seq<char>,
    reason: Seq<char>,
    now: Timestamp,
    other: Seq<char>,
    other_reason: Seq<char>,
)
    requires
        other != id,
        gate_settled(gates, other, other_reason),
    ensures
        gate_settled(upserted_gates(gates, id, reason, now).0, other, other_reason),
{
    let at = gate_index(gates, id, 0);
    let there = gate_index(gates, other, 0);
    lemma_gate_index(gates, id, 0);
    lemma_gate_index(gates, other, 0);
    let next = upserted_gates(gates, id, reason, now).0;
    if at < gates.len() {
        assert forall|i: int| 0 <= i < next.len() implies (#[trigger] next[i]).id == gates[i].id by {
            if i != at {
                assert(next[i] == gates[i]);
            }
        }
        lemma_gate_index_same_ids(next, gates, other, 0);
        assert(next[there] == gates[there]);
    } else {
        lemma_gate_index_push(gates, fresh_gate(id, reason, now), other, 0);
        assert(next[there] == gates[there]);
    }
}

/// After a pass over the first `k` roster entries of a roster without repeated names,
/// each blocked one among them has its gate as reconciliation leaves it.
pub proof fn lemma_pass_gates(
    task: TaskFileV,
    log: Seq<TaskEventV>,
    obs: Seq<ObservationV>,
    now: Timestamp,
    k: int,
    j: int,
)
    requires
        distinct_instances(task.roster),
        0 <= j < k <= task.roster.len(),
        status_at(task.roster, log, obs, j) == SubagentStatus::Blocked,
    ensures
        gate_settled(
            agents_pass(initial_pass(task), log, task.id, obs, now, k).gates,
            gate_id_for(task.roster[j].instance),
            reason_at(task.roster, obs, j),
        ),
    decreases k,
{
    let st = agents_pass(initial_pass(task), log, task.id, obs, now, k - 1);
    lemma_pass_roster(task, log, obs, now, k - 1);
    assert(st.roster[k - 1] == task.roster[k - 1]);
    lemma_step_shape(st, log, task.id, obs, now, k - 1);
    let id = gate_id_for(task.roster[j].instance);
    let reason = reason_at(task.roster, obs, j);
    if k - 1 == j {
        lemma_upsert_settles(st.gates, id, reason, now);
    } else {
        lemma_pass_gates(task, log, obs, now, k - 1, j);
        if status_at(task.roster, log, obs, k - 1) == SubagentStatus::Blocked {
            assert(task.roster[j].instance != task.roster[k - 1].instance);
            lemma_gate_ids_differ(task.roster[k - 1].instance, task.roster[j].instance);
            lemma_upsert_keeps(
                st.gates,
                gate_id_for(task.roster[k - 1].instance),
                reason_at(task.roster, obs, k - 1),
                now,
                id,
                reason,
            );
        }
    }
}

/// Whether one of the first `n` roster entries is blocked depends on their statuses
/// alone.
proof fn lemma_blocked_among_same(
    r1: Seq<AgentInstanceV>,
    l1: Seq<TaskEventV>,
    r2: Seq<AgentInstanceV>,
    l2: Seq<TaskEventV>,
    obs: Seq<ObservationV>,
    n: int,
)
    requires
        forall|j: int| 0 <= j < n ==> #[trigger] status_at(r1, l1, obs, j) == status_at(r2, l2, obs, j),
    ensures
        blocked_among(r1, l1, obs, n) == blocked_among(r2, l2, obs, n),
    decreases n,
{
    if n > 0 {
        lemma_blocked_among_same(r1, l1, r2, l2, obs, n - 1);
        assert(status_at(r1, l1, obs, n - 1) == status_at(r2, l2, obs, n - 1));
    }
}

/// A task that was reconciled is settled against the log that the reconciliation
/// extended, where no two roster entries have one name and none is in the window between
/// its entry into the roster and the writing of its pid file.
pub proof fn lemma_reconciled_is_settled(
    task: TaskFileV,
    log: Seq<TaskEventV>,
    obs: Seq<ObservationV>,
    now: Timestamp,
)
    requires
        distinct_instances(task.roster),
        forall|j: int| 0 <= j < task.roster.len() ==> !#[trigger] in_launch_window(
            task.roster,
            log,
            obs,
            j,
        ),
    ensures
        is_settled(
            reconciled(task, log, obs, now).task,
            log + reconciled(task, log, obs, now).emitted,
            obs,
        ),
{
    let n = task.roster.len() as int;
    let end = agents_pass(initial_pass(task), log, task.id, obs, now, n);
    let first = reconciled(task, log, obs, now);
    let after = log + first.emitted;
    lemma_pass_roster(task, log, obs, now, n);
    assert forall|j: int| 0 <= j < n implies #[trigger] status_at(first.task.roster, after, obs, j)
        == status_at(task.roster, log, obs, j) by {
        assert(end.roster[j] == aligned_entry(task.roster[j], status_at(task.roster, log, obs, j)));
        lemma_pass_cancelled(task, log, obs, now, n, task.roster[j].instance);
        assert(!in_launch_window(task.roster, log, obs, j));
    }
    assert forall|j: int| 0 <= j < first.task.roster.len() implies #[trigger] entry_settled(
        first.task.roster,
        first.task.gates,
        after,
        obs,
        j,
    ) by {
        assert(end.roster[j] == aligned_entry(task.roster[j], status_at(task.roster, log, obs, j)));
        assert(status_at(first.task.roster, after, obs, j) == status_at(task.roster, log, obs, j));
        lemma_pass_events(task, log, obs, now, n, j);
        if status_at(task.roster, log, obs, j) == SubagentStatus::Blocked {
            lemma_pass_gates(task, log, obs, now, n, j);
        }
    }
    lemma_blocked_among_same(first.task.roster, after, task.roster, log, obs, n);
}

/// Reconciliation is idempotent: a second reconciliation, against the same observations
/// and the log with the events of the first one appended, records no event, asks for no
/// write and leaves the descriptor as the first one left it.
///
/// This holds of a roster without repeated names of which no entry is in the window
/// between its entry into the roster and the writing of its pid file. An entry in that
/// window is taken as running by the first reconciliation and, with still no pid file,
/// as failed by the second.
pub proof fn law_reconciliation_is_idempotent(
    task: TaskFileV,
    log: Seq<TaskEventV>,
    obs: Seq<ObservationV>,
    first_time: Timestamp,
    second_time: Timestamp,
)
    requires
        distinct_instances(task.roster),
        forall|j: int| 0 <= j < task.roster.len() ==> !#[trigger] in_launch_window(
            task.roster,
            log,
            obs,
            j,
        ),
    ensures
        ({
            let first = reconciled(task, log, obs, first_time);
            let second = reconciled(first.task, log + first.emitted, obs, second_time);
            &&& second.emitted == Seq::<TaskEventV>::empty()
            &&& !second.write
            &&& second.task == first.task
        }),
{
    lemma_reconciled_is_settled(task, log, obs, first_time);
    let first = reconciled(task, log, obs, first_time);
    law_settled_task_stays(first.task, log + first.emitted, obs, second_time);
}

} // verus!
