//! What holds of every reconciliation.

use vstd::prelude::*;
use crate::json::{empty_object, key_index, JsonV};
use crate::reconcile::{
    agent_event_count, agent_event_view, agent_step, agents_pass, blocked_payload,
    derived_status, gate_event_count, gate_event_view, gate_id_for, gate_reason, initial_pass,
    is_agent_event, is_gate_event, payload_with_agent, payload_with_gate, reconciled,
    snapshot_of, ObservationV, PassV, SubagentStatus,
};
use crate::task::{AgentInstanceState, TaskEventV, TaskFileV, Timestamp};

verus! {

/// One of the five events that record the life of an agent.
pub open spec fn is_agent_life_event(ty: Seq<char>) -> bool {
    ty == "agent.started"@ || ty == "agent.completed"@ || ty == "agent.failed"@ || ty
        == "agent.blocked"@ || ty == "agent.cancelled"@
}

/// The type of a gate event differs from the types of the events of an agent.
pub proof fn lemma_gate_blocked_is_no_agent_event(ty: Seq<char>)
    requires
        is_agent_life_event(ty),
    ensures
        ty != "gate.blocked"@,
{
    reveal_strlit("gate.blocked");
    reveal_strlit("agent.started");
    reveal_strlit("agent.completed");
    reveal_strlit("agent.failed");
    reveal_strlit("agent.blocked");
    reveal_strlit("agent.cancelled");
    assert("gate.blocked"@[0] == 'g');
    assert(ty[0] == 'a');
}

/// The payload of a gate event names its gate.
pub proof fn lemma_gate_payload_names_gate(reason: Seq<char>, gate: Seq<char>, agent: Seq<char>)
    ensures
        payload_with_agent(payload_with_gate(blocked_payload(reason), gate), agent).text_at(
            "gateId"@,
        ) == Some(gate),
{
    reveal_strlit("gateId");
    reveal_strlit("reason");
    reveal_strlit("agentInstance");
    reveal_with_fuel(key_index, 4);
    assert("reason"@[0] == 'r');
    assert("gateId"@[0] == 'g');
    assert("agentInstance"@[0] == 'a');
    let f0 = Seq::<(Seq<char>, JsonV)>::empty().push(("reason"@, JsonV::Str(reason)));
    assert(blocked_payload(reason) == JsonV::Object(f0));
    assert(key_index(f0, "gateId"@, 0) == 1);
    let f1 = f0.push(("gateId"@, JsonV::Str(gate)));
    assert(payload_with_gate(blocked_payload(reason), gate) == JsonV::Object(f1));
    assert(key_index(f1, "agentInstance"@, 0) == 2);
    let f2 = f1.push(("agentInstance"@, JsonV::Str(agent)));
    assert(key_index(f2, "gateId"@, 0) == 1);
}

/// Counting after one more event.
pub proof fn lemma_agent_event_count_push(
    log: Seq<TaskEventV>,
    e: TaskEventV,
    agent: Seq<char>,
    ty: Seq<char>,
)
    ensures
        agent_event_count(log.push(e), agent, ty) == agent_event_count(log, agent, ty) + if is_agent_event(
            e,
            agent,
            ty,
        ) {
            1nat
        } else {
            0nat
        },
{
    assert(log.push(e).drop_last() =~= log);
}

/// Counting after one more event.
pub proof fn lemma_gate_event_count_push(
    log: Seq<TaskEventV>,
    e: TaskEventV,
    gate: Seq<char>,
    ty: Seq<char>,
)
    ensures
        gate_event_count(log.push(e), gate, ty) == gate_event_count(log, gate, ty) + if is_gate_event(
            e,
            gate,
            ty,
        ) {
            1nat
        } else {
            0nat
        },
{
    assert(log.push(e).drop_last() =~= log);
}

/// One step of a pass records no second event of a kind for an agent.
pub proof fn lemma_step_agent_events(
    st: PassV,
    log: Seq<TaskEventV>,
    task_id: Seq<char>,
    obs: Seq<ObservationV>,
    now: Timestamp,
    idx: int,
    agent: Seq<char>,
    ty: Seq<char>,
)
    requires
        ty != "gate.blocked"@,
        agent_event_count(log + st.emitted, agent, ty) <= 1,
    ensures
        agent_event_count(log + agent_step(st, log, task_id, obs, now, idx).emitted, agent, ty)
            <= 1,
{
    let a = st.roster[idx];
    let next = agent_step(st, log, task_id, obs, now, idx);
    let doc = crate::reconcile::final_doc_of(crate::reconcile::observation_at(obs, idx));
    let cancelled = agent_event_count(log, a.instance, "agent.cancelled"@) > 0;
    let status = derived_status(
        cancelled,
        doc,
        crate::reconcile::observation_at(obs, idx).pid_alive,
        a.state,
    );
    let mid = match status.event_name() {
        Some(t) => if agent_event_count(log + st.emitted, a.instance, t) > 0 {
            st.emitted
        } else {
            st.emitted.push(agent_event_view(task_id, a.instance, t, empty_object(), now))
        },
        None => st.emitted,
    };
    assert(agent_event_count(log + mid, agent, ty) <= 1) by {
        if let Some(t) = status.event_name() {
            if !(agent_event_count(log + st.emitted, a.instance, t) > 0) {
                let e = agent_event_view(task_id, a.instance, t, empty_object(), now);
                assert(log + st.emitted.push(e) =~= (log + st.emitted).push(e));
                lemma_agent_event_count_push(log + st.emitted, e, agent, ty);
            }
        }
    }
    if status == SubagentStatus::Blocked {
        let gate = gate_id_for(a.instance);
        let reason = gate_reason(a.instance, snapshot_of(doc));
        if !(gate_event_count(log + mid, gate, "gate.blocked"@) > 0) {
            let e = gate_event_view(
                task_id,
                gate,
                Some(a.instance),
                "gate.blocked"@,
                blocked_payload(reason),
                now,
            );
            assert(log + mid.push(e) =~= (log + mid).push(e));
            lemma_agent_event_count_push(log + mid, e, agent, ty);
        }
    }
}

/// A pass records no second event of a kind for an agent.
pub proof fn lemma_pass_agent_events(
    st: PassV,
    log: Seq<TaskEventV>,
    task_id: Seq<char>,
    obs: Seq<ObservationV>,
    now: Timestamp,
    n: int,
    agent: Seq<char>,
    ty: Seq<char>,
)
    requires
        ty != "gate.blocked"@,
        agent_event_count(log + st.emitted, agent, ty) <= 1,
    ensures
        agent_event_count(log + agents_pass(st, log, task_id, obs, now, n).emitted, agent, ty)
            <= 1,
    decreases n,
{
    if n > 0 {
        lemma_pass_agent_events(st, log, task_id, obs, now, n - 1, agent, ty);
        lemma_step_agent_events(
            agents_pass(st, log, task_id, obs, now, n - 1),
            log,
            task_id,
            obs,
            now,
            n - 1,
            agent,
            ty,
        );
    }
}

/// Each of the events `agent.started`, `agent.completed`, `agent.failed`,
/// `agent.blocked` and `agent.cancelled` stands at most once for an agent in the log
/// after a reconciliation, where it stood at most once before.
pub proof fn law_agent_events_at_most_once(
    task: TaskFileV,
    log: Seq<TaskEventV>,
    obs: Seq<ObservationV>,
    now: Timestamp,
    agent: Seq<char>,
    ty: Seq<char>,
)
    requires
        is_agent_life_event(ty),
        agent_event_count(log, agent, ty) <= 1,
    ensures
        agent_event_count(log + reconciled(task, log, obs, now).emitted, agent, ty) <= 1,
{
    lemma_gate_blocked_is_no_agent_event(ty);
    assert(log + initial_pass(task).emitted =~= log);
    lemma_pass_agent_events(
        initial_pass(task),
        log,
        task.id,
        obs,
        now,
        task.roster.len() as int,
        agent,
        ty,
    );
}

/// One step of a pass records no second `gate.blocked` for a gate.
pub proof fn lemma_step_gate_events(
    st: PassV,
    log: Seq<TaskEventV>,
    task_id: Seq<char>,
    obs: Seq<ObservationV>,
    now: Timestamp,
    idx: int,
    gate: Seq<char>,
)
    requires
        gate_event_count(log + st.emitted, gate, "gate.blocked"@) <= 1,
    ensures
        gate_event_count(
            log + agent_step(st, log, task_id, obs, now, idx).emitted,
            gate,
            "gate.blocked"@,
        ) <= 1,
{
    let gb = "gate.blocked"@;
    let a = st.roster[idx];
    let doc = crate::reconcile::final_doc_of(crate::reconcile::observation_at(obs, idx));
    let cancelled = agent_event_count(log, a.instance, "agent.cancelled"@) > 0;
    let status = derived_status(
        cancelled,
        doc,
        crate::reconcile::observation_at(obs, idx).pid_alive,
        a.state,
    );
    let mid = match status.event_name() {
        Some(t) => if agent_event_count(log + st.emitted, a.instance, t) > 0 {
            st.emitted
        } else {
            st.emitted.push(agent_event_view(task_id, a.instance, t, empty_object(), now))
        },
        None => st.emitted,
    };
    assert(gate_event_count(log + mid, gate, gb) <= 1) by {
        if let Some(t) = status.event_name() {
            if !(agent_event_count(log + st.emitted, a.instance, t) > 0) {
                let e = agent_event_view(task_id, a.instance, t, empty_object(), now);
                assert(is_agent_life_event(t));
                lemma_gate_blocked_is_no_agent_event(t);
                assert(log + st.emitted.push(e) =~= (log + st.emitted).push(e));
                lemma_gate_event_count_push(log + st.emitted, e, gate, gb);
            }
        }
    }
    if status == SubagentStatus::Blocked {
        let own = gate_id_for(a.instance);
        let reason = gate_reason(a.instance, snapshot_of(doc));
        if !(gate_event_count(log + mid, own, gb) > 0) {
            let e = gate_event_view(
                task_id,
                own,
                Some(a.instance),
                gb,
                blocked_payload(reason),
                now,
            );
            lemma_gate_payload_names_gate(reason, own, a.instance);
            assert(log + mid.push(e) =~= (log + mid).push(e));
            lemma_gate_event_count_push(log + mid, e, gate, gb);
        }
    }
}

/// A pass records no second `gate.blocked` for a gate.
pub proof fn lemma_pass_gate_events(
    st: PassV,
    log: Seq<TaskEventV>,
    task_id: Seq<char>,
    obs: Seq<ObservationV>,
    now: Timestamp,
    n: int,
    gate: Seq<char>,
)
    requires
        gate_event_count(log + st.emitted, gate, "gate.blocked"@) <= 1,
    ensures
        gate_event_count(
            log + agents_pass(st, log, task_id, obs, now, n).emitted,
            gate,
            "gate.blocked"@,
        ) <= 1,
    decreases n,
{
    if n > 0 {
        lemma_pass_gate_events(st, log, task_id, obs, now, n - 1, gate);
        lemma_step_gate_events(
            agents_pass(st, log, task_id, obs, now, n - 1),
            log,
            task_id,
            obs,
            now,
            n - 1,
            gate,
        );
    }
}

/// The event `gate.blocked` stands at most once for a gate in the log after a
/// reconciliation, where it stood at most once before.
pub proof fn law_gate_blocked_at_most_once(
    task: TaskFileV,
    log: Seq<TaskEventV>,
    obs: Seq<ObservationV>,
    now: Timestamp,
    gate: Seq<char>,
)
    requires
        gate_event_count(log, gate, "gate.blocked"@) <= 1,
    ensures
        gate_event_count(log + reconciled(task, log, obs, now).emitted, gate, "gate.blocked"@)
            <= 1,
{
    assert(log + initial_pass(task).emitted =~= log);
    lemma_pass_gate_events(
        initial_pass(task),
        log,
        task.id,
        obs,
        now,
        task.roster.len() as int,
        gate,
    );
}

/// The status of an agent whose final artifact parses depends on that artifact and on
/// whether a cancellation is on record, and on nothing else: neither the liveness of its
/// process nor its persisted state is consulted.
pub proof fn law_final_artifact_decides(
    cancelled: bool,
    doc: JsonV,
    pid_a: Option<bool>,
    pid_b: Option<bool>,
    state_a: AgentInstanceState,
    state_b: AgentInstanceState,
)
    ensures
        derived_status(cancelled, Some(doc), pid_a, state_a) == derived_status(
            cancelled,
            Some(doc),
            pid_b,
            state_b,
        ),
{
}

} // verus!
