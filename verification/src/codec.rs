//! Descriptors and events as documents: how a task, its parts and the events of its log
//! are written as JSON or YAML documents, and how they are read back.
//!
//! A document that was written by `encode_task` is read back by `decode_task` as the
//! task that was written.

use vstd::prelude::*;
use crate::controller::{
    OrchestratorActions, OrchestratorActionsV, OrchestratorSubtask, OrchestratorSubtaskV,
};
use crate::error::{OrchestratorError, TaskStoreError};
use crate::json::{
    compact_json, key_index, lemma_list_view, lemma_list_view_push, list_view, parse, parse_yaml,
    parsed_json, parsed_yaml, text_array, to_text, to_yaml_text, yaml_text, Json, JsonV,
};
use crate::split::{lines, split_lines, texts};
use crate::task::{
    AgentInstance, AgentInstanceState, AgentInstanceV, Gate, GateState, GateType, GateV, Milestone,
    MilestoneState, MilestoneV, TaskConfig, TaskEvent, TaskEventV, TaskFile, TaskFileV, TaskState,
    TaskTopology, Timestamp,
};
use crate::text::{
    chars_of, copy_string, lemma_views_push, opt_view, owned, string_of, trim, trim_text, views,
};
use crate::time::{format_rfc3339_zulu, parse_rfc3339, parsed_timestamp, rfc3339_zulu_text};

verus! {

/// The text that the string member `key` holds; nothing where the member is missing or
/// no string.
pub open spec fn required_text(doc: JsonV, key: Seq<char>) -> Option<Seq<char>> {
    doc.text_at(key)
}

/// The text that the member `key` holds, and the empty text where the member is
/// missing; nothing where the member is there and no string.
pub open spec fn defaulted_text(doc: JsonV, key: Seq<char>) -> Option<Seq<char>> {
    match doc.get(key) {
        None => Some(Seq::empty()),
        Some(JsonV::Str(s)) => Some(s),
        Some(_) => None,
    }
}

/// The text that the member `key` may hold: none where the member is missing or `null`;
/// nothing at all where the member is there and neither a string nor `null`.
pub open spec fn optional_text(doc: JsonV, key: Seq<char>) -> Option<Option<Seq<char>>> {
    match doc.get(key) {
        None => Some(None),
        Some(JsonV::Null) => Some(None),
        Some(JsonV::Str(s)) => Some(Some(s)),
        Some(_) => None,
    }
}

/// The instant that the member `key` may hold, as `optional_text` and read as a date.
pub open spec fn optional_time(doc: JsonV, key: Seq<char>) -> Option<Option<Timestamp>> {
    match doc.get(key) {
        None => Some(None),
        Some(JsonV::Null) => Some(None),
        Some(JsonV::Str(s)) => match parsed_timestamp(s) {
            Some(t) => Some(Some(t)),
            None => None,
        },
        Some(_) => None,
    }
}

/// The instant that the member `key` holds, and `now` where the member is missing.
pub open spec fn defaulted_time(doc: JsonV, key: Seq<char>, now: Timestamp) -> Option<Timestamp> {
    match doc.get(key) {
        None => Some(now),
        Some(JsonV::Str(s)) => parsed_timestamp(s),
        Some(_) => None,
    }
}

/// The number that the member `key` holds, where it is a whole number that fits 32 bits
/// without a sign.
pub open spec fn required_u32(doc: JsonV, key: Seq<char>) -> Option<u32> {
    match doc.get(key) {
        Some(JsonV::Int(n)) => if 0 <= n <= u32::MAX {
            Some(n as u32)
        } else {
            None
        },
        _ => None,
    }
}

/// The truth value that the member `key` holds.
pub open spec fn required_bool(doc: JsonV, key: Seq<char>) -> Option<bool> {
    match doc.get(key) {
        Some(JsonV::Bool(b)) => Some(b),
        _ => None,
    }
}

/// The texts of the items of a list, where all of them are strings.
pub open spec fn all_texts(items: Seq<JsonV>) -> Option<Seq<Seq<char>>>
    decreases items.len(),
{
    if items.len() == 0 {
        Some(Seq::empty())
    } else {
        match (all_texts(items.drop_last()), items.last()) {
            (Some(rest), JsonV::Str(s)) => Some(rest.push(s)),
            _ => None,
        }
    }
}

/// The texts that the member `key` lists, and none where the member is missing; nothing
/// where the member is there and no list of strings.
pub open spec fn defaulted_texts(doc: JsonV, key: Seq<char>) -> Option<Seq<Seq<char>>> {
    match doc.get(key) {
        None => Some(Seq::empty()),
        Some(JsonV::Array(items)) => all_texts(items),
        Some(_) => None,
    }
}

/// Reads a required string.
pub fn read_text(doc: &Json, key: &str) -> (r: Option<String>)
    ensures
        opt_view(r) == required_text(doc@, key@),
{
    match doc.str_at(key) {
        Some(s) => Some(copy_string(s)),
        None => None,
    }
}

/// Reads a string that defaults to the empty text.
pub fn read_text_or_empty(doc: &Json, key: &str) -> (r: Option<String>)
    ensures
        opt_view(r) == defaulted_text(doc@, key@),
{
    match doc.get(key) {
        None => Some(String::new()),
        Some(v) => match v.as_str() {
            Some(s) => Some(copy_string(s)),
            None => None,
        },
    }
}

/// The view of an optional string that may have failed to read.
pub open spec fn opt_opt_view(r: Option<Option<String>>) -> Option<Option<Seq<char>>> {
    match r {
        Some(o) => Some(opt_view(o)),
        None => None,
    }
}

/// Reads an optional string.
pub fn read_optional_text(doc: &Json, key: &str) -> (r: Option<Option<String>>)
    ensures
        opt_opt_view(r) == optional_text(doc@, key@),
{
    match doc.get(key) {
        None => Some(None),
        Some(v) => match v {
            Json::Null => Some(None),
            Json::Str(s) => Some(Some(copy_string(s))),
            _ => None,
        },
    }
}

/// Reads an optional instant.
pub fn read_optional_time(doc: &Json, key: &str) -> (r: Option<Option<Timestamp>>)
    ensures
        r == optional_time(doc@, key@),
{
    match doc.get(key) {
        None => Some(None),
        Some(v) => match v {
            Json::Null => Some(None),
            Json::Str(s) => match parse_rfc3339(s.as_str()) {
                Some(t) => Some(Some(t)),
                None => None,
            },
            _ => None,
        },
    }
}

/// Reads an instant that defaults to `now`.
pub fn read_time_or(doc: &Json, key: &str, now: Timestamp) -> (r: Option<Timestamp>)
    ensures
        r == defaulted_time(doc@, key@, now),
{
    match doc.get(key) {
        None => Some(now),
        Some(v) => match v {
            Json::Str(s) => parse_rfc3339(s.as_str()),
            _ => None,
        },
    }
}

/// Reads a required number of 32 bits without a sign.
pub fn read_u32(doc: &Json, key: &str) -> (r: Option<u32>)
    ensures
        r == required_u32(doc@, key@),
{
    match doc.get(key) {
        Some(v) => match v {
            Json::Int(n) => if 0 <= *n && *n <= 4294967295 {
                Some(*n as u32)
            } else {
                None
            },
            _ => None,
        },
        None => None,
    }
}

/// Reads a required truth value.
pub fn read_bool(doc: &Json, key: &str) -> (r: Option<bool>)
    ensures
        r == required_bool(doc@, key@),
{
    match doc.get(key) {
        Some(v) => match v {
            Json::Bool(b) => Some(*b),
            _ => None,
        },
        None => None,
    }
}

/// The view of a list of strings that may have failed to read.
pub open spec fn opt_views(r: Option<Vec<String>>) -> Option<Seq<Seq<char>>> {
    match r {
        Some(v) => Some(views(v@)),
        None => None,
    }
}

/// Reads a list of strings that defaults to the empty list.
#[verifier::loop_isolation(false)]
pub fn read_texts(doc: &Json, key: &str) -> (r: Option<Vec<String>>)
    ensures
        opt_views(r) == defaulted_texts(doc@, key@),
{
    let mut out: Vec<String> = Vec::new();
    proof {
        assert(views(out@) =~= Seq::<Seq<char>>::empty());
    }
    let items = match doc.get(key) {
        None => {
            return Some(out);
        },
        Some(v) => match v.as_array() {
            Some(items) => items,
            None => {
                return None;
            },
        },
    };
    proof {
        lemma_list_view(items@);
    }
    let ghost iv = list_view(items@);
    let mut i: usize = 0;
    while i < items.len()
        invariant
            i <= items.len(),
            iv == list_view(items@),
            iv.len() == items.len(),
            forall|j: int| 0 <= j < items.len() ==> #[trigger] iv[j] == items@[j]@,
            all_texts(iv.take(i as int)) == Some(views(out@)),
        decreases items.len() - i,
    {
        proof {
            assert(iv.take(i as int + 1).drop_last() =~= iv.take(i as int));
            assert(iv.take(i as int + 1).last() == items@[i as int]@);
        }
        match items[i].as_str() {
            Some(s) => {
                let c = copy_string(s);
                proof {
                    lemma_views_push(out@, c);
                }
                out.push(c);
            },
            None => {
                proof {
                    assert(!(iv.take(i as int + 1).last() is Str));
                    assert(all_texts(iv.take(i as int + 1)) is None);
                    lemma_all_texts_fails(iv, i as int + 1);
                }
                return None;
            },
        }
        i += 1;
    }
    proof {
        assert(iv.take(items.len() as int) =~= iv);
    }
    Some(out)
}

/// A list that holds something else than strings among its first `n` items is no list
/// of strings.
pub proof fn lemma_all_texts_fails(items: Seq<JsonV>, n: int)
    requires
        0 <= n <= items.len(),
        all_texts(items.take(n)) is None,
    ensures
        all_texts(items) is None,
    decreases items.len() - n,
{
    if n < items.len() {
        assert(items.take(n + 1).drop_last() =~= items.take(n));
        lemma_all_texts_fails(items, n + 1);
    } else {
        assert(items.take(n) =~= items);
    }
}

/// A list of strings as a document reads back as the texts of the strings.
pub proof fn lemma_text_array_reads_back(items: Seq<Seq<char>>)
    ensures
        all_texts(text_array(items)->Array_0) == Some(items),
    decreases items.len(),
{
    let docs = text_array(items)->Array_0;
    if items.len() > 0 {
        lemma_text_array_reads_back(items.drop_last());
        assert(docs.drop_last() =~= text_array(items.drop_last())->Array_0);
        assert(all_texts(docs.drop_last())->0.push(items.last()) =~= items);
    } else {
        assert(Seq::<Seq<char>>::empty() =~= items);
    }
}

/// The name of a topology.
pub open spec fn topology_name(t: TaskTopology) -> Seq<char> {
    match t {
        TaskTopology::Swarm => "swarm"@,
        TaskTopology::Squad => "squad"@,
    }
}

/// The topology that a name stands for.
pub open spec fn topology_named(name: Seq<char>) -> Option<TaskTopology> {
    if name == "swarm"@ {
        Some(TaskTopology::Swarm)
    } else if name == "squad"@ {
        Some(TaskTopology::Squad)
    } else {
        None
    }
}

/// The name of a task state.
pub open spec fn task_state_name(s: TaskState) -> Seq<char> {
    match s {
        TaskState::Created => "created"@,
        TaskState::Working => "working"@,
        TaskState::InputRequired => "input-required"@,
        TaskState::Completed => "completed"@,
        TaskState::Failed => "failed"@,
        TaskState::Canceled => "canceled"@,
    }
}

/// The task state that a name stands for. The older names `gate.blocked` and
/// `cancelled` are read as `input-required` and `canceled`.
pub open spec fn task_state_named(name: Seq<char>) -> Option<TaskState> {
    if name == "created"@ {
        Some(TaskState::Created)
    } else if name == "working"@ {
        Some(TaskState::Working)
    } else if name == "input-required"@ || name == "gate.blocked"@ {
        Some(TaskState::InputRequired)
    } else if name == "completed"@ {
        Some(TaskState::Completed)
    } else if name == "failed"@ {
        Some(TaskState::Failed)
    } else if name == "canceled"@ || name == "cancelled"@ {
        Some(TaskState::Canceled)
    } else {
        None
    }
}

/// The name of the state of a milestone.
pub open spec fn milestone_state_name(s: MilestoneState) -> Seq<char> {
    match s {
        MilestoneState::Pending => "pending"@,
        MilestoneState::Working => "working"@,
        MilestoneState::Done => "done"@,
        MilestoneState::Blocked => "blocked"@,
    }
}

/// The state of a milestone that a name stands for. The older name `in_progress` is
/// read as `working`.
pub open spec fn milestone_state_named(name: Seq<char>) -> Option<MilestoneState> {
    if name == "pending"@ {
        Some(MilestoneState::Pending)
    } else if name == "working"@ || name == "in_progress"@ {
        Some(MilestoneState::Working)
    } else if name == "done"@ {
        Some(MilestoneState::Done)
    } else if name == "blocked"@ {
        Some(MilestoneState::Blocked)
    } else {
        None
    }
}

/// The name of the state of an agent.
pub open spec fn agent_state_name(s: AgentInstanceState) -> Seq<char> {
    match s {
        AgentInstanceState::Pending => "pending"@,
        AgentInstanceState::Active => "active"@,
        AgentInstanceState::Awaiting => "awaiting"@,
        AgentInstanceState::Dormant => "dormant"@,
        AgentInstanceState::Completed => "completed"@,
        AgentInstanceState::Failed => "failed"@,
    }
}

/// The state of an agent that a name stands for. The older name `created` is read as
/// `pending`.
pub open spec fn agent_state_named(name: Seq<char>) -> Option<AgentInstanceState> {
    if name == "pending"@ || name == "created"@ {
        Some(AgentInstanceState::Pending)
    } else if name == "active"@ {
        Some(AgentInstanceState::Active)
    } else if name == "awaiting"@ {
        Some(AgentInstanceState::Awaiting)
    } else if name == "dormant"@ {
        Some(AgentInstanceState::Dormant)
    } else if name == "completed"@ {
        Some(AgentInstanceState::Completed)
    } else if name == "failed"@ {
        Some(AgentInstanceState::Failed)
    } else {
        None
    }
}

/// The name of the kind of a gate.
pub open spec fn gate_type_name(t: GateType) -> Seq<char> {
    match t {
        GateType::HumanApproval => "human-approval"@,
        GateType::AutoCheck => "auto-check"@,
        GateType::MilestoneGate => "milestone-gate"@,
    }
}

/// The kind of a gate that a name stands for.
pub open spec fn gate_type_named(name: Seq<char>) -> Option<GateType> {
    if name == "human-approval"@ {
        Some(GateType::HumanApproval)
    } else if name == "auto-check"@ {
        Some(GateType::AutoCheck)
    } else if name == "milestone-gate"@ {
        Some(GateType::MilestoneGate)
    } else {
        None
    }
}

/// The name of the state of a gate.
pub open spec fn gate_state_name(s: GateState) -> Seq<char> {
    match s {
        GateState::Open => "open"@,
        GateState::Blocked => "blocked"@,
        GateState::Approved => "approved"@,
        GateState::Rejected => "rejected"@,
    }
}

/// The state of a gate that a name stands for.
pub open spec fn gate_state_named(name: Seq<char>) -> Option<GateState> {
    if name == "open"@ {
        Some(GateState::Open)
    } else if name == "blocked"@ {
        Some(GateState::Blocked)
    } else if name == "approved"@ {
        Some(GateState::Approved)
    } else if name == "rejected"@ {
        Some(GateState::Rejected)
    } else {
        None
    }
}

/// Every name of a state or a kind stands for that state or kind.
pub proof fn lemma_names_read_back()
    ensures
        forall|t: TaskTopology| topology_named(#[trigger] topology_name(t)) == Some(t),
        forall|s: TaskState| task_state_named(#[trigger] task_state_name(s)) == Some(s),
        forall|s: MilestoneState|
            milestone_state_named(#[trigger] milestone_state_name(s)) == Some(s),
        forall|s: AgentInstanceState| agent_state_named(#[trigger] agent_state_name(s)) == Some(s),
        forall|t: GateType| gate_type_named(#[trigger] gate_type_name(t)) == Some(t),
        forall|s: GateState| gate_state_named(#[trigger] gate_state_name(s)) == Some(s),
{
    reveal_strlit("swarm");
    reveal_strlit("squad");
    reveal_strlit("created");
    reveal_strlit("working");
    reveal_strlit("input-required");
    reveal_strlit("gate.blocked");
    reveal_strlit("completed");
    reveal_strlit("failed");
    reveal_strlit("canceled");
    reveal_strlit("cancelled");
    reveal_strlit("pending");
    reveal_strlit("in_progress");
    reveal_strlit("done");
    reveal_strlit("blocked");
    reveal_strlit("active");
    reveal_strlit("awaiting");
    reveal_strlit("dormant");
    reveal_strlit("human-approval");
    reveal_strlit("auto-check");
    reveal_strlit("milestone-gate");
    reveal_strlit("open");
    reveal_strlit("approved");
    reveal_strlit("rejected");
    assert("swarm"@[1] == 'w' && "squad"@[1] == 'q');
    assert("created"@[0] == 'c' && "working"@[0] == 'w' && "failed"@[0] == 'f');
    assert("completed"@[0] == 'c' && "canceled"@[0] == 'c');
    assert("created"@.len() == 7 && "working"@.len() == 7 && "pending"@.len() == 7);
    assert("dormant"@.len() == 7 && "blocked"@.len() == 7);
    assert("pending"@[0] == 'p' && "dormant"@[0] == 'd' && "blocked"@[0] == 'b');
    assert("canceled"@.len() == 8 && "awaiting"@.len() == 8 && "approved"@.len() == 8);
    assert("rejected"@.len() == 8);
    assert("awaiting"@[1] == 'w' && "approved"@[1] == 'p' && "rejected"@[0] == 'r');
    assert("active"@.len() == 6 && "failed"@.len() == 6 && "active"@[0] == 'a');
    assert("done"@.len() == 4 && "open"@.len() == 4 && "done"@[0] == 'd' && "open"@[0] == 'o');
    assert("input-required"@.len() == 14 && "human-approval"@.len() == 14);
    assert("milestone-gate"@.len() == 14);
    assert("human-approval"@[0] == 'h' && "milestone-gate"@[0] == 'm');
    assert("auto-check"@.len() == 10 && "completed"@.len() == 9);
    assert forall|s: TaskState| task_state_named(#[trigger] task_state_name(s)) == Some(s) by {
        match s {
            TaskState::Created => {},
            TaskState::Working => {},
            TaskState::InputRequired => {},
            TaskState::Completed => {},
            TaskState::Failed => {},
            TaskState::Canceled => {},
        }
    }
    assert forall|s: AgentInstanceState| agent_state_named(#[trigger] agent_state_name(s)) == Some(
        s,
    ) by {
        match s {
            AgentInstanceState::Pending => {},
            AgentInstanceState::Active => {},
            AgentInstanceState::Awaiting => {},
            AgentInstanceState::Dormant => {},
            AgentInstanceState::Completed => {},
            AgentInstanceState::Failed => {},
        }
    }
}

/// Reads the topology that a name stands for.
pub fn topology_from_name(name: &str) -> (r: Option<TaskTopology>)
    ensures
        r == topology_named(name@),
{
    let n = chars_of(name);
    if crate::text::text_eq(&n, &chars_of("swarm")) {
        Some(TaskTopology::Swarm)
    } else if crate::text::text_eq(&n, &chars_of("squad")) {
        Some(TaskTopology::Squad)
    } else {
        None
    }
}

/// Reads the task state that a name stands for.
pub fn task_state_from_name(name: &str) -> (r: Option<TaskState>)
    ensures
        r == task_state_named(name@),
{
    let n = chars_of(name);
    if crate::text::text_eq(&n, &chars_of("created")) {
        Some(TaskState::Created)
    } else if crate::text::text_eq(&n, &chars_of("working")) {
        Some(TaskState::Working)
    } else if crate::text::text_eq(&n, &chars_of("input-required")) || crate::text::text_eq(
        &n,
        &chars_of("gate.blocked"),
    ) {
        Some(TaskState::InputRequired)
    } else if crate::text::text_eq(&n, &chars_of("completed")) {
        Some(TaskState::Completed)
    } else if crate::text::text_eq(&n, &chars_of("failed")) {
        Some(TaskState::Failed)
    } else if crate::text::text_eq(&n, &chars_of("canceled")) || crate::text::text_eq(
        &n,
        &chars_of("cancelled"),
    ) {
        Some(TaskState::Canceled)
    } else {
        None
    }
}

/// Reads the state of a milestone that a name stands for.
pub fn milestone_state_from_name(name: &str) -> (r: Option<MilestoneState>)
    ensures
        r == milestone_state_named(name@),
{
    let n = chars_of(name);
    if crate::text::text_eq(&n, &chars_of("pending")) {
        Some(MilestoneState::Pending)
    } else if crate::text::text_eq(&n, &chars_of("working")) || crate::text::text_eq(
        &n,
        &chars_of("in_progress"),
    ) {
        Some(MilestoneState::Working)
    } else if crate::text::text_eq(&n, &chars_of("done")) {
        Some(MilestoneState::Done)
    } else if crate::text::text_eq(&n, &chars_of("blocked")) {
        Some(MilestoneState::Blocked)
    } else {
        None
    }
}

/// Reads the state of an agent that a name stands for.
pub fn agent_state_from_name(name: &str) -> (r: Option<AgentInstanceState>)
    ensures
        r == agent_state_named(name@),
{
    let n = chars_of(name);
    if crate::text::text_eq(&n, &chars_of("pending")) || crate::text::text_eq(
        &n,
        &chars_of("created"),
    ) {
        Some(AgentInstanceState::Pending)
    } else if crate::text::text_eq(&n, &chars_of("active")) {
        Some(AgentInstanceState::Active)
    } else if crate::text::text_eq(&n, &chars_of("awaiting")) {
        Some(AgentInstanceState::Awaiting)
    } else if crate::text::text_eq(&n, &chars_of("dormant")) {
        Some(AgentInstanceState::Dormant)
    } else if crate::text::text_eq(&n, &chars_of("completed")) {
        Some(AgentInstanceState::Completed)
    } else if crate::text::text_eq(&n, &chars_of("failed")) {
        Some(AgentInstanceState::Failed)
    } else {
        None
    }
}

/// Reads the kind of a gate that a name stands for.
pub fn gate_type_from_name(name: &str) -> (r: Option<GateType>)
    ensures
        r == gate_type_named(name@),
{
    let n = chars_of(name);
    if crate::text::text_eq(&n, &chars_of("human-approval")) {
        Some(GateType::HumanApproval)
    } else if crate::text::text_eq(&n, &chars_of("auto-check")) {
        Some(GateType::AutoCheck)
    } else if crate::text::text_eq(&n, &chars_of("milestone-gate")) {
        Some(GateType::MilestoneGate)
    } else {
        None
    }
}

/// Reads the state of a gate that a name stands for.
pub fn gate_state_from_name(name: &str) -> (r: Option<GateState>)
    ensures
        r == gate_state_named(name@),
{
    let n = chars_of(name);
    if crate::text::text_eq(&n, &chars_of("open")) {
        Some(GateState::Open)
    } else if crate::text::text_eq(&n, &chars_of("blocked")) {
        Some(GateState::Blocked)
    } else if crate::text::text_eq(&n, &chars_of("approved")) {
        Some(GateState::Approved)
    } else if crate::text::text_eq(&n, &chars_of("rejected")) {
        Some(GateState::Rejected)
    } else {
        None
    }
}

/// The name of the state of a milestone.
pub fn format_milestone_state(s: MilestoneState) -> (r: &'static str)
    ensures
        r@ == milestone_state_name(s),
{
    match s {
        MilestoneState::Pending => "pending",
        MilestoneState::Working => "working",
        MilestoneState::Done => "done",
        MilestoneState::Blocked => "blocked",
    }
}

/// The name of the state of an agent.
pub fn format_agent_state(s: AgentInstanceState) -> (r: &'static str)
    ensures
        r@ == agent_state_name(s),
{
    match s {
        AgentInstanceState::Pending => "pending",
        AgentInstanceState::Active => "active",
        AgentInstanceState::Awaiting => "awaiting",
        AgentInstanceState::Dormant => "dormant",
        AgentInstanceState::Completed => "completed",
        AgentInstanceState::Failed => "failed",
    }
}

/// The name of the kind of a gate.
pub fn format_gate_type(t: GateType) -> (r: &'static str)
    ensures
        r@ == gate_type_name(t),
{
    match t {
        GateType::HumanApproval => "human-approval",
        GateType::AutoCheck => "auto-check",
        GateType::MilestoneGate => "milestone-gate",
    }
}

/// The name of the state of a gate.
pub fn format_gate_state(s: GateState) -> (r: &'static str)
    ensures
        r@ == gate_state_name(s),
{
    match s {
        GateState::Open => "open",
        GateState::Blocked => "blocked",
        GateState::Approved => "approved",
        GateState::Rejected => "rejected",
    }
}

/// The items of a list, each read by `read`; nothing where one of them cannot be read.
pub open spec fn read_each<T>(items: Seq<JsonV>, read: spec_fn(JsonV) -> Option<T>) -> Option<
    Seq<T>,
>
    decreases items.len(),
{
    if items.len() == 0 {
        Some(Seq::empty())
    } else {
        match (read_each(items.drop_last(), read), read(items.last())) {
            (Some(rest), Some(x)) => Some(rest.push(x)),
            _ => None,
        }
    }
}

/// A list of which one of the first `n` items cannot be read cannot be read.
pub proof fn lemma_read_each_fails<T>(
    items: Seq<JsonV>,
    read: spec_fn(JsonV) -> Option<T>,
    n: int,
)
    requires
        0 <= n <= items.len(),
        read_each(items.take(n), read) is None,
    ensures
        read_each(items, read) is None,
    decreases items.len() - n,
{
    if n < items.len() {
        assert(items.take(n + 1).drop_last() =~= items.take(n));
        lemma_read_each_fails(items, read, n + 1);
    } else {
        assert(items.take(n) =~= items);
    }
}

/// A list that was written item by item reads back as the items that were written,
/// where each of them reads back.
pub proof fn lemma_read_each_reads_back<T>(
    values: Seq<T>,
    write: spec_fn(T) -> JsonV,
    read: spec_fn(JsonV) -> Option<T>,
)
    requires
        forall|i: int| 0 <= i < values.len() ==> read(write(#[trigger] values[i])) == Some(values[i]),
    ensures
        read_each(Seq::new(values.len(), |i: int| write(values[i])), read) == Some(values),
    decreases values.len(),
{
    let docs = Seq::new(values.len(), |i: int| write(values[i]));
    if values.len() > 0 {
        let rest = values.drop_last();
        assert forall|i: int| 0 <= i < rest.len() implies read(write(#[trigger] rest[i])) == Some(
            rest[i],
        ) by {
            assert(rest[i] == values[i]);
        }
        lemma_read_each_reads_back(rest, write, read);
        assert(docs.drop_last() =~= Seq::new(rest.len(), |i: int| write(rest[i])));
        assert(docs.last() == write(values.last()));
        assert(rest.push(values.last()) =~= values);
    } else {
        assert(Seq::<T>::empty() =~= values);
    }
}

/// The list that the member `key` holds, each item read by `read`, and the empty list
/// where the member is missing; nothing where the member is there and no list that can
/// be read.
pub open spec fn defaulted_list<T>(
    doc: JsonV,
    key: Seq<char>,
    read: spec_fn(JsonV) -> Option<T>,
) -> Option<Seq<T>> {
    match doc.get(key) {
        None => Some(Seq::empty()),
        Some(JsonV::Array(items)) => read_each(items, read),
        Some(_) => None,
    }
}

/// An optional text as a document: `null` where there is none.
pub open spec fn optional_json(text: Option<Seq<char>>) -> JsonV {
    match text {
        Some(t) => JsonV::Str(t),
        None => JsonV::Null,
    }
}

/// An instant as a document: the date with `Z` for the offset.
pub open spec fn time_json(ts: Timestamp) -> JsonV {
    JsonV::Str(rfc3339_zulu_text(ts.secs, ts.nanos))
}

/// An optional instant as a document: `null` where there is none.
pub open spec fn optional_time_json(ts: Option<Timestamp>) -> JsonV {
    match ts {
        Some(t) => time_json(t),
        None => JsonV::Null,
    }
}

/// The date that is written for an instant is read as that instant.
pub open spec fn reads_back(ts: Timestamp) -> bool {
    parsed_timestamp(rfc3339_zulu_text(ts.secs, ts.nanos)) == Some(ts)
}

/// An optional instant reads back where it is there.
pub open spec fn optional_reads_back(ts: Option<Timestamp>) -> bool {
    match ts {
        Some(t) => reads_back(t),
        None => true,
    }
}

/// An optional instant is well formed where it is there.
pub open spec fn optional_wf(ts: Option<Timestamp>) -> bool {
    match ts {
        Some(t) => t.wf(),
        None => true,
    }
}

/// Adds a member to the members of an object.
fn field(fields: &mut Vec<(String, Json)>, key: &str, value: Json)
    ensures
        crate::json::members_view(final(fields)@) == crate::json::members_view(old(fields)@).push(
            (key@, value@),
        ),
{
    let ghost before = fields@;
    fields.push((owned(key), value));
    proof {
        assert(fields@.drop_last() =~= before);
    }
}

/// Writes an optional string as a document.
fn write_optional(text: &Option<String>) -> (r: Json)
    ensures
        r@ == optional_json(opt_view(*text)),
{
    match text {
        Some(t) => Json::Str(copy_string(t)),
        None => Json::Null,
    }
}

/// Writes an instant as a document.
fn write_time(ts: Timestamp) -> (r: Json)
    ensures
        r@ == time_json(ts),
        ts.wf() ==> reads_back(ts),
{
    Json::Str(format_rfc3339_zulu(ts))
}

/// Writes an optional instant as a document.
fn write_optional_time(ts: Option<Timestamp>) -> (r: Json)
    ensures
        r@ == optional_time_json(ts),
        optional_wf(ts) ==> optional_reads_back(ts),
{
    match ts {
        Some(t) => write_time(t),
        None => Json::Null,
    }
}

/// A milestone as a document.
pub open spec fn milestone_json(m: MilestoneV) -> JsonV {
    JsonV::Object(
        seq![
            ("id"@, JsonV::Str(m.id)),
            ("title"@, JsonV::Str(m.title)),
            ("state"@, JsonV::Str(milestone_state_name(m.state))),
            ("dependsOn"@, text_array(m.depends_on)),
        ],
    )
}

/// The state of a milestone that the member `state` holds, and `pending` where the
/// member is missing.
pub open spec fn read_milestone_state(doc: JsonV) -> Option<MilestoneState> {
    match doc.get("state"@) {
        None => Some(MilestoneState::Pending),
        Some(JsonV::Str(name)) => milestone_state_named(name),
        Some(_) => None,
    }
}

/// The milestone that a document holds: an object with the strings `id` and `title`; its
/// state and what it depends on may be missing.
pub open spec fn milestone_of(doc: JsonV) -> Option<MilestoneV> {
    match (
        required_text(doc, "id"@),
        required_text(doc, "title"@),
        read_milestone_state(doc),
        defaulted_texts(doc, "dependsOn"@),
    ) {
        (Some(id), Some(title), Some(state), Some(depends_on)) => Some(
            MilestoneV { id: id, title: title, state: state, depends_on: depends_on },
        ),
        _ => None,
    }
}

/// A milestone that was written reads back.
pub proof fn lemma_milestone_reads_back(m: MilestoneV)
    ensures
        milestone_of(milestone_json(m)) == Some(m),
{
    reveal_strlit("id");
    reveal_strlit("title");
    reveal_strlit("state");
    reveal_strlit("dependsOn");
    reveal_with_fuel(key_index, 5);
    assert("title"@[0] == 't' && "state"@[0] == 's');
    assert("id"@.len() == 2 && "dependsOn"@.len() == 9 && "title"@.len() == 5);
    lemma_names_read_back();
    lemma_text_array_reads_back(m.depends_on);
    let doc = milestone_json(m);
    assert(doc.get("id"@) == Some(JsonV::Str(m.id)));
    assert(doc.get("title"@) == Some(JsonV::Str(m.title)));
    assert(doc.get("state"@) == Some(JsonV::Str(milestone_state_name(m.state))));
    assert(doc.get("dependsOn"@) == Some(text_array(m.depends_on)));
}

/// Writes a milestone as a document.
pub fn encode_milestone(m: &Milestone) -> (r: Json)
    ensures
        r@ == milestone_json(m@),
{
    let mut f: Vec<(String, Json)> = Vec::new();
    field(&mut f, "id", Json::Str(copy_string(&m.id)));
    field(&mut f, "title", Json::Str(copy_string(&m.title)));
    field(&mut f, "state", Json::string(format_milestone_state(m.state)));
    field(&mut f, "dependsOn", crate::json::strings_to_json(&m.depends_on));
    proof {
        assert(crate::json::members_view(f@) =~= milestone_json(m@)->Object_0);
    }
    Json::Object(f)
}

/// The view of a value that may have failed to read.
pub open spec fn read_view<T: View>(r: Option<T>) -> Option<T::V> {
    match r {
        Some(x) => Some(x@),
        None => None,
    }
}

/// Reads a milestone from a document.
pub fn decode_milestone(doc: &Json) -> (r: Option<Milestone>)
    ensures
        read_view(r) == milestone_of(doc@),
{
    let id = read_text(doc, "id");
    let title = read_text(doc, "title");
    let state = match doc.get("state") {
        None => Some(MilestoneState::Pending),
        Some(v) => match v.as_str() {
            Some(name) => milestone_state_from_name(name.as_str()),
            None => None,
        },
    };
    let depends_on = read_texts(doc, "dependsOn");
    match (id, title, state, depends_on) {
        (Some(id), Some(title), Some(state), Some(depends_on)) => Some(
            Milestone { id: id, title: title, state: state, depends_on: depends_on },
        ),
        _ => None,
    }
}

/// An agent of the roster as a document.
pub open spec fn agent_json(a: AgentInstanceV) -> JsonV {
    JsonV::Object(
        seq![
            ("instance"@, JsonV::Str(a.instance)),
            ("agent"@, JsonV::Str(a.agent)),
            ("state"@, JsonV::Str(agent_state_name(a.state))),
            ("assignedMilestone"@, optional_json(a.assigned_milestone)),
            ("skills"@, text_array(a.skills)),
        ],
    )
}

/// The state of an agent that the member `state` holds, and `pending` where the member
/// is missing.
pub open spec fn read_agent_state(doc: JsonV) -> Option<AgentInstanceState> {
    match doc.get("state"@) {
        None => Some(AgentInstanceState::Pending),
        Some(JsonV::Str(name)) => agent_state_named(name),
        Some(_) => None,
    }
}

/// The agent that a document holds: an object with the strings `instance` and `agent`;
/// its state, its milestone and its skills may be missing.
pub open spec fn agent_of(doc: JsonV) -> Option<AgentInstanceV> {
    match (
        required_text(doc, "instance"@),
        required_text(doc, "agent"@),
        read_agent_state(doc),
        optional_text(doc, "assignedMilestone"@),
        defaulted_texts(doc, "skills"@),
    ) {
        (Some(instance), Some(agent), Some(state), Some(assigned), Some(skills)) => Some(
            AgentInstanceV {
                instance: instance,
                agent: agent,
                state: state,
                assigned_milestone: assigned,
                skills: skills,
            },
        ),
        _ => None,
    }
}

/// An agent that was written reads back.
pub proof fn lemma_agent_reads_back(a: AgentInstanceV)
    ensures
        agent_of(agent_json(a)) == Some(a),
{
    reveal_strlit("instance");
    reveal_strlit("agent");
    reveal_strlit("state");
    reveal_strlit("assignedMilestone");
    reveal_strlit("skills");
    reveal_with_fuel(key_index, 6);
    assert("agent"@[0] == 'a' && "state"@[0] == 's');
    assert("instance"@.len() == 8 && "assignedMilestone"@.len() == 17 && "skills"@.len() == 6);
    assert("agent"@.len() == 5);
    lemma_names_read_back();
    lemma_text_array_reads_back(a.skills);
    let doc = agent_json(a);
    assert(doc.get("instance"@) == Some(JsonV::Str(a.instance)));
    assert(doc.get("agent"@) == Some(JsonV::Str(a.agent)));
    assert(doc.get("state"@) == Some(JsonV::Str(agent_state_name(a.state))));
    assert(doc.get("assignedMilestone"@) == Some(optional_json(a.assigned_milestone)));
    assert(doc.get("skills"@) == Some(text_array(a.skills)));
}

/// Writes an agent of the roster as a document.
pub fn encode_agent(a: &AgentInstance) -> (r: Json)
    ensures
        r@ == agent_json(a@),
{
    let mut f: Vec<(String, Json)> = Vec::new();
    field(&mut f, "instance", Json::Str(copy_string(&a.instance)));
    field(&mut f, "agent", Json::Str(copy_string(&a.agent)));
    field(&mut f, "state", Json::string(format_agent_state(a.state)));
    field(&mut f, "assignedMilestone", write_optional(&a.assigned_milestone));
    field(&mut f, "skills", crate::json::strings_to_json(&a.skills));
    proof {
        assert(crate::json::members_view(f@) =~= agent_json(a@)->Object_0);
    }
    Json::Object(f)
}

/// Reads an agent of the roster from a document.
pub fn decode_agent(doc: &Json) -> (r: Option<AgentInstance>)
    ensures
        read_view(r) == agent_of(doc@),
{
    let instance = read_text(doc, "instance");
    let agent = read_text(doc, "agent");
    let state = match doc.get("state") {
        None => Some(AgentInstanceState::Pending),
        Some(v) => match v.as_str() {
            Some(name) => agent_state_from_name(name.as_str()),
            None => None,
        },
    };
    let assigned = read_optional_text(doc, "assignedMilestone");
    let skills = read_texts(doc, "skills");
    match (instance, agent, state, assigned, skills) {
        (Some(instance), Some(agent), Some(state), Some(assigned), Some(skills)) => Some(
            AgentInstance {
                instance: instance,
                agent: agent,
                state: state,
                assigned_milestone: assigned,
                skills: skills,
            },
        ),
        _ => None,
    }
}

/// A gate as a document.
pub open spec fn gate_json(g: GateV) -> JsonV {
    JsonV::Object(
        seq![
            ("id"@, JsonV::Str(g.id)),
            ("type"@, JsonV::Str(gate_type_name(g.gate_type))),
            ("state"@, JsonV::Str(gate_state_name(g.state))),
            ("reason"@, JsonV::Str(g.reason)),
            ("instructionsRef"@, optional_json(g.instructions_ref)),
            ("blockedAt"@, optional_time_json(g.blocked_at)),
            ("resolvedAt"@, optional_time_json(g.resolved_at)),
            ("resolvedBy"@, optional_json(g.resolved_by)),
        ],
    )
}

/// What a document holds as a gate: an object with the string `id`, a kind and a state;
/// every other member may be missing.
pub open spec fn gate_of(doc: JsonV) -> Option<GateV> {
    match (
        required_text(doc, "id"@),
        match required_text(doc, "type"@) {
            Some(name) => gate_type_named(name),
            None => None,
        },
        match required_text(doc, "state"@) {
            Some(name) => gate_state_named(name),
            None => None,
        },
        defaulted_text(doc, "reason"@),
        optional_text(doc, "instructionsRef"@),
        optional_time(doc, "blockedAt"@),
        optional_time(doc, "resolvedAt"@),
        optional_text(doc, "resolvedBy"@),
    ) {
        (
            Some(id),
            Some(gate_type),
            Some(state),
            Some(reason),
            Some(instructions_ref),
            Some(blocked_at),
            Some(resolved_at),
            Some(resolved_by),
        ) => Some(
            GateV {
                id: id,
                gate_type: gate_type,
                state: state,
                reason: reason,
                instructions_ref: instructions_ref,
                blocked_at: blocked_at,
                resolved_at: resolved_at,
                resolved_by: resolved_by,
            },
        ),
        _ => None,
    }
}

/// The instants of a gate read back.
pub open spec fn gate_reads_back(g: GateV) -> bool {
    optional_reads_back(g.blocked_at) && optional_reads_back(g.resolved_at)
}

/// The instants of a gate are well formed.
pub open spec fn gate_wf(g: GateV) -> bool {
    optional_wf(g.blocked_at) && optional_wf(g.resolved_at)
}

/// A gate that was written reads back, where its instants do.
pub proof fn lemma_gate_reads_back(g: GateV)
    requires
        gate_reads_back(g),
    ensures
        gate_of(gate_json(g)) == Some(g),
{
    reveal_strlit("id");
    reveal_strlit("type");
    reveal_strlit("state");
    reveal_strlit("reason");
    reveal_strlit("instructionsRef");
    reveal_strlit("blockedAt");
    reveal_strlit("resolvedAt");
    reveal_strlit("resolvedBy");
    reveal_with_fuel(key_index, 9);
    assert("id"@.len() == 2 && "type"@.len() == 4 && "state"@.len() == 5 && "reason"@.len() == 6);
    assert("instructionsRef"@.len() == 15 && "blockedAt"@.len() == 9);
    assert("resolvedAt"@.len() == 10 && "resolvedBy"@.len() == 10);
    assert("resolvedAt"@[8] == 'A' && "resolvedBy"@[8] == 'B');
    lemma_names_read_back();
    let doc = gate_json(g);
    assert(doc.get("id"@) == Some(JsonV::Str(g.id)));
    assert(doc.get("type"@) == Some(JsonV::Str(gate_type_name(g.gate_type))));
    assert(doc.get("state"@) == Some(JsonV::Str(gate_state_name(g.state))));
    assert(doc.get("reason"@) == Some(JsonV::Str(g.reason)));
    assert(doc.get("instructionsRef"@) == Some(optional_json(g.instructions_ref)));
    assert(doc.get("blockedAt"@) == Some(optional_time_json(g.blocked_at)));
    assert(doc.get("resolvedAt"@) == Some(optional_time_json(g.resolved_at)));
    assert(doc.get("resolvedBy"@) == Some(optional_json(g.resolved_by)));
}

/// Writes a gate as a document.
pub fn encode_gate(g: &Gate) -> (r: Json)
    ensures
        r@ == gate_json(g@),
        gate_wf(g@) ==> gate_reads_back(g@),
{
    let mut f: Vec<(String, Json)> = Vec::new();
    field(&mut f, "id", Json::Str(copy_string(&g.id)));
    field(&mut f, "type", Json::string(format_gate_type(g.gate_type)));
    field(&mut f, "state", Json::string(format_gate_state(g.state)));
    field(&mut f, "reason", Json::Str(copy_string(&g.reason)));
    field(&mut f, "instructionsRef", write_optional(&g.instructions_ref));
    field(&mut f, "blockedAt", write_optional_time(g.blocked_at));
    field(&mut f, "resolvedAt", write_optional_time(g.resolved_at));
    field(&mut f, "resolvedBy", write_optional(&g.resolved_by));
    proof {
        assert(crate::json::members_view(f@) =~= gate_json(g@)->Object_0);
    }
    Json::Object(f)
}

/// Reads a gate from a document.
pub fn decode_gate(doc: &Json) -> (r: Option<Gate>)
    ensures
        read_view(r) == gate_of(doc@),
{
    let id = read_text(doc, "id");
    let gate_type = match doc.str_at("type") {
        Some(name) => gate_type_from_name(name.as_str()),
        None => None,
    };
    let state = match doc.str_at("state") {
        Some(name) => gate_state_from_name(name.as_str()),
        None => None,
    };
    let reason = read_text_or_empty(doc, "reason");
    let instructions_ref = read_optional_text(doc, "instructionsRef");
    let blocked_at = read_optional_time(doc, "blockedAt");
    let resolved_at = read_optional_time(doc, "resolvedAt");
    let resolved_by = read_optional_text(doc, "resolvedBy");
    match (id, gate_type, state, reason, instructions_ref, blocked_at, resolved_at, resolved_by) {
        (
            Some(id),
            Some(gate_type),
            Some(state),
            Some(reason),
            Some(instructions_ref),
            Some(blocked_at),
            Some(resolved_at),
            Some(resolved_by),
        ) => Some(
            Gate {
                id: id,
                gate_type: gate_type,
                state: state,
                reason: reason,
                instructions_ref: instructions_ref,
                blocked_at: blocked_at,
                resolved_at: resolved_at,
                resolved_by: resolved_by,
            },
        ),
        _ => None,
    }
}

/// The settings of a task as a document.
pub open spec fn config_json(c: TaskConfig) -> JsonV {
    JsonV::Object(
        seq![
            ("maxConcurrentAgents"@, JsonV::Int(c.max_concurrent_agents as i64)),
            ("timeoutSeconds"@, JsonV::Int(c.timeout_seconds as i64)),
            ("autoApprove"@, JsonV::Bool(c.auto_approve)),
        ],
    )
}

/// The settings that a document holds: an object with all three members.
pub open spec fn config_of(doc: JsonV) -> Option<TaskConfig> {
    match (
        required_u32(doc, "maxConcurrentAgents"@),
        required_u32(doc, "timeoutSeconds"@),
        required_bool(doc, "autoApprove"@),
    ) {
        (Some(max), Some(timeout), Some(auto)) => Some(
            TaskConfig { max_concurrent_agents: max, timeout_seconds: timeout, auto_approve: auto },
        ),
        _ => None,
    }
}

/// Settings that were written read back.
pub proof fn lemma_config_reads_back(c: TaskConfig)
    ensures
        config_of(config_json(c)) == Some(c),
{
    reveal_strlit("maxConcurrentAgents");
    reveal_strlit("timeoutSeconds");
    reveal_strlit("autoApprove");
    reveal_with_fuel(key_index, 4);
    assert("maxConcurrentAgents"@.len() == 19 && "timeoutSeconds"@.len() == 14);
    assert("autoApprove"@.len() == 11);
    let doc = config_json(c);
    assert(doc.get("maxConcurrentAgents"@) == Some(JsonV::Int(c.max_concurrent_agents as i64)));
    assert(doc.get("timeoutSeconds"@) == Some(JsonV::Int(c.timeout_seconds as i64)));
    assert(doc.get("autoApprove"@) == Some(JsonV::Bool(c.auto_approve)));
}

/// Writes the settings of a task as a document.
pub fn encode_config(c: &TaskConfig) -> (r: Json)
    ensures
        r@ == config_json(*c),
{
    let mut f: Vec<(String, Json)> = Vec::new();
    field(&mut f, "maxConcurrentAgents", Json::Int(c.max_concurrent_agents as i64));
    field(&mut f, "timeoutSeconds", Json::Int(c.timeout_seconds as i64));
    field(&mut f, "autoApprove", Json::Bool(c.auto_approve));
    proof {
        assert(crate::json::members_view(f@) =~= config_json(*c)->Object_0);
    }
    Json::Object(f)
}

/// Reads the settings of a task from a document.
pub fn decode_config(doc: &Json) -> (r: Option<TaskConfig>)
    ensures
        r == config_of(doc@),
{
    match (read_u32(doc, "maxConcurrentAgents"), read_u32(doc, "timeoutSeconds"), read_bool(
        doc,
        "autoApprove",
    )) {
        (Some(max), Some(timeout), Some(auto)) => Some(
            TaskConfig { max_concurrent_agents: max, timeout_seconds: timeout, auto_approve: auto },
        ),
        _ => None,
    }
}

/// Writes milestones as a list of documents.
pub fn encode_milestones(items: &Vec<Milestone>) -> (r: Json)
    ensures
        r@ == JsonV::Array(Seq::new(items.len() as nat, |i: int| milestone_json(items@[i]@))),
{
    let mut out: Vec<Json> = Vec::new();
    let mut i: usize = 0;
    while i < items.len()
        invariant
            i <= items.len(),
            list_view(out@).len() == i,
            forall|j: int| 0 <= j < i ==> #[trigger] list_view(out@)[j] == milestone_json(items@[j]@),
        decreases items.len() - i,
    {
        let d = encode_milestone(&items[i]);
        proof {
            lemma_list_view_push(out@, d);
        }
        out.push(d);
        i += 1;
    }
    proof {
        assert(list_view(out@) =~= Seq::new(
            items.len() as nat,
            |i: int| milestone_json(items@[i]@),
        ));
    }
    Json::Array(out)
}

/// Writes the agents of a roster as a list of documents.
pub fn encode_roster(items: &Vec<AgentInstance>) -> (r: Json)
    ensures
        r@ == JsonV::Array(Seq::new(items.len() as nat, |i: int| agent_json(items@[i]@))),
{
    let mut out: Vec<Json> = Vec::new();
    let mut i: usize = 0;
    while i < items.len()
        invariant
            i <= items.len(),
            list_view(out@).len() == i,
            forall|j: int| 0 <= j < i ==> #[trigger] list_view(out@)[j] == agent_json(items@[j]@),
        decreases items.len() - i,
    {
        let d = encode_agent(&items[i]);
        proof {
            lemma_list_view_push(out@, d);
        }
        out.push(d);
        i += 1;
    }
    proof {
        assert(list_view(out@) =~= Seq::new(items.len() as nat, |i: int| agent_json(items@[i]@)));
    }
    Json::Array(out)
}

/// Writes gates as a list of documents.
pub fn encode_gates(items: &Vec<Gate>) -> (r: Json)
    ensures
        r@ == JsonV::Array(Seq::new(items.len() as nat, |i: int| gate_json(items@[i]@))),
        (forall|i: int| 0 <= i < items.len() ==> gate_wf(#[trigger] items@[i]@)) ==> (forall|
            i: int,
        | 0 <= i < items.len() ==> gate_reads_back(#[trigger] items@[i]@)),
{
    let mut out: Vec<Json> = Vec::new();
    let mut i: usize = 0;
    while i < items.len()
        invariant
            i <= items.len(),
            list_view(out@).len() == i,
            forall|j: int| 0 <= j < i ==> #[trigger] list_view(out@)[j] == gate_json(items@[j]@),
            forall|j: int|
                0 <= j < i ==> (gate_wf(#[trigger] items@[j]@) ==> gate_reads_back(items@[j]@)),
        decreases items.len() - i,
    {
        let d = encode_gate(&items[i]);
        proof {
            lemma_list_view_push(out@, d);
        }
        out.push(d);
        i += 1;
    }
    proof {
        assert(list_view(out@) =~= Seq::new(items.len() as nat, |i: int| gate_json(items@[i]@)));
    }
    Json::Array(out)
}

/// Reads the list that the member `key` holds as milestones.
#[verifier::loop_isolation(false)]
pub fn decode_milestones(doc: &Json, key: &str) -> (r: Option<Vec<Milestone>>)
    ensures
        match r {
            Some(v) => defaulted_list(doc@, key@, |d: JsonV| milestone_of(d)) == Some(views(v@)),
            None => defaulted_list(doc@, key@, |d: JsonV| milestone_of(d)) is None,
        },
{
    let ghost read = |d: JsonV| milestone_of(d);
    let mut out: Vec<Milestone> = Vec::new();
    proof {
        assert(views(out@) =~= Seq::<MilestoneV>::empty());
    }
    let items = match doc.get(key) {
        None => {
            return Some(out);
        },
        Some(v) => match v.as_array() {
            Some(items) => items,
            None => {
                return None;
            },
        },
    };
    proof {
        lemma_list_view(items@);
    }
    let ghost iv = list_view(items@);
    let mut i: usize = 0;
    while i < items.len()
        invariant
            i <= items.len(),
            read_each(iv.take(i as int), read) == Some(views(out@)),
        decreases items.len() - i,
    {
        proof {
            assert(iv.take(i as int + 1).drop_last() =~= iv.take(i as int));
            assert(iv.take(i as int + 1).last() == items@[i as int]@);
        }
        match decode_milestone(&items[i]) {
            Some(m) => {
                proof {
                    lemma_views_push(out@, m);
                }
                out.push(m);
            },
            None => {
                proof {
                    assert(read(iv.take(i as int + 1).last()) is None);
                    assert(read_each(iv.take(i as int + 1), read) is None);
                    lemma_read_each_fails(iv, read, i as int + 1);
                }
                return None;
            },
        }
        i += 1;
    }
    proof {
        assert(iv.take(items.len() as int) =~= iv);
    }
    Some(out)
}

/// Reads the list that the member `key` holds as the agents of a roster.
#[verifier::loop_isolation(false)]
pub fn decode_roster(doc: &Json, key: &str) -> (r: Option<Vec<AgentInstance>>)
    ensures
        match r {
            Some(v) => defaulted_list(doc@, key@, |d: JsonV| agent_of(d)) == Some(views(v@)),
            None => defaulted_list(doc@, key@, |d: JsonV| agent_of(d)) is None,
        },
{
    let ghost read = |d: JsonV| agent_of(d);
    let mut out: Vec<AgentInstance> = Vec::new();
    proof {
        assert(views(out@) =~= Seq::<AgentInstanceV>::empty());
    }
    let items = match doc.get(key) {
        None => {
            return Some(out);
        },
        Some(v) => match v.as_array() {
            Some(items) => items,
            None => {
                return None;
            },
        },
    };
    proof {
        lemma_list_view(items@);
    }
    let ghost iv = list_view(items@);
    let mut i: usize = 0;
    while i < items.len()
        invariant
            i <= items.len(),
            read_each(iv.take(i as int), read) == Some(views(out@)),
        decreases items.len() - i,
    {
        proof {
            assert(iv.take(i as int + 1).drop_last() =~= iv.take(i as int));
            assert(iv.take(i as int + 1).last() == items@[i as int]@);
        }
        match decode_agent(&items[i]) {
            Some(m) => {
                proof {
                    lemma_views_push(out@, m);
                }
                out.push(m);
            },
            None => {
                proof {
                    assert(read(iv.take(i as int + 1).last()) is None);
                    assert(read_each(iv.take(i as int + 1), read) is None);
                    lemma_read_each_fails(iv, read, i as int + 1);
                }
                return None;
            },
        }
        i += 1;
    }
    proof {
        assert(iv.take(items.len() as int) =~= iv);
    }
    Some(out)
}

/// Reads the list that the member `key` holds as gates.
#[verifier::loop_isolation(false)]
pub fn decode_gates(doc: &Json, key: &str) -> (r: Option<Vec<Gate>>)
    ensures
        match r {
            Some(v) => defaulted_list(doc@, key@, |d: JsonV| gate_of(d)) == Some(views(v@)),
            None => defaulted_list(doc@, key@, |d: JsonV| gate_of(d)) is None,
        },
{
    let ghost read = |d: JsonV| gate_of(d);
    let mut out: Vec<Gate> = Vec::new();
    proof {
        assert(views(out@) =~= Seq::<GateV>::empty());
    }
    let items = match doc.get(key) {
        None => {
            return Some(out);
        },
        Some(v) => match v.as_array() {
            Some(items) => items,
            None => {
                return None;
            },
        },
    };
    proof {
        lemma_list_view(items@);
    }
    let ghost iv = list_view(items@);
    let mut i: usize = 0;
    while i < items.len()
        invariant
            i <= items.len(),
            read_each(iv.take(i as int), read) == Some(views(out@)),
        decreases items.len() - i,
    {
        proof {
            assert(iv.take(i as int + 1).drop_last() =~= iv.take(i as int));
            assert(iv.take(i as int + 1).last() == items@[i as int]@);
        }
        match decode_gate(&items[i]) {
            Some(m) => {
                proof {
                    lemma_views_push(out@, m);
                }
                out.push(m);
            },
            None => {
                proof {
                    assert(read(iv.take(i as int + 1).last()) is None);
                    assert(read_each(iv.take(i as int + 1), read) is None);
                    lemma_read_each_fails(iv, read, i as int + 1);
                }
                return None;
            },
        }
        i += 1;
    }
    proof {
        assert(iv.take(items.len() as int) =~= iv);
    }
    Some(out)
}

/// The descriptor of a task as a document, its members in the order of the descriptor.
pub open spec fn task_json(t: TaskFileV) -> JsonV {
    JsonV::Object(
        seq![
            ("id"@, JsonV::Str(t.id)),
            ("title"@, JsonV::Str(t.title)),
            ("description"@, JsonV::Str(t.description)),
            ("topology"@, JsonV::Str(topology_name(t.topology))),
            ("state"@, JsonV::Str(task_state_name(t.state))),
            ("createdAt"@, time_json(t.created_at)),
            ("updatedAt"@, time_json(t.updated_at)),
            (
                "milestones"@,
                JsonV::Array(Seq::new(t.milestones.len(), |i: int| milestone_json(t.milestones[i]))),
            ),
            ("roster"@, JsonV::Array(Seq::new(t.roster.len(), |i: int| agent_json(t.roster[i])))),
            ("gates"@, JsonV::Array(Seq::new(t.gates.len(), |i: int| gate_json(t.gates[i])))),
            ("config"@, config_json(t.config)),
        ],
    )
}

/// The settings that the member `config` holds, and the default ones where the member
/// is missing.
pub open spec fn read_config(doc: JsonV) -> Option<TaskConfig> {
    match doc.get("config"@) {
        None => Some(
            TaskConfig { max_concurrent_agents: 3, timeout_seconds: 3600, auto_approve: false },
        ),
        Some(c) => config_of(c),
    }
}

/// The descriptor that a document holds. The document is an object with the strings
/// `id` and `title`, a topology and a state. Its description, its milestones, its roster,
/// its gates and its settings may be missing, and so may the instants of its creation and
/// of its last update, which are then `now`.
pub open spec fn task_of(doc: JsonV, now: Timestamp) -> Option<TaskFileV> {
    match (
        required_text(doc, "id"@),
        required_text(doc, "title"@),
        defaulted_text(doc, "description"@),
        match required_text(doc, "topology"@) {
            Some(name) => topology_named(name),
            None => None,
        },
        match required_text(doc, "state"@) {
            Some(name) => task_state_named(name),
            None => None,
        },
        defaulted_time(doc, "createdAt"@, now),
        defaulted_time(doc, "updatedAt"@, now),
    ) {
        (
            Some(id),
            Some(title),
            Some(description),
            Some(topology),
            Some(state),
            Some(created_at),
            Some(updated_at),
        ) => match (
            defaulted_list(doc, "milestones"@, |d: JsonV| milestone_of(d)),
            defaulted_list(doc, "roster"@, |d: JsonV| agent_of(d)),
            defaulted_list(doc, "gates"@, |d: JsonV| gate_of(d)),
            read_config(doc),
        ) {
            (Some(milestones), Some(roster), Some(gates), Some(config)) => Some(
                TaskFileV {
                    id: id,
                    title: title,
                    description: description,
                    topology: topology,
                    state: state,
                    created_at: created_at,
                    updated_at: updated_at,
                    milestones: milestones,
                    roster: roster,
                    gates: gates,
                    config: config,
                },
            ),
            _ => None,
        },
        _ => None,
    }
}

/// The instants of a descriptor are well formed: they lie within the years 1970 to 9999
/// and hold less than a second of nanoseconds.
pub open spec fn task_wf(t: TaskFileV) -> bool {
    &&& t.created_at.wf()
    &&& t.updated_at.wf()
    &&& forall|i: int| 0 <= i < t.gates.len() ==> gate_wf(#[trigger] t.gates[i])
}

/// The instants of a descriptor read back.
pub open spec fn task_reads_back(t: TaskFileV) -> bool {
    &&& reads_back(t.created_at)
    &&& reads_back(t.updated_at)
    &&& forall|i: int| 0 <= i < t.gates.len() ==> gate_reads_back(#[trigger] t.gates[i])
}

/// A descriptor that is written as a document and read back is the descriptor that was
/// written, field by field, where the instants that it holds read back from their dates.
pub proof fn law_task_round_trip(t: TaskFileV, now: Timestamp)
    requires
        task_reads_back(t),
    ensures
        task_of(task_json(t), now) == Some(t),
{
    reveal_strlit("id");
    reveal_strlit("title");
    reveal_strlit("description");
    reveal_strlit("topology");
    reveal_strlit("state");
    reveal_strlit("createdAt");
    reveal_strlit("updatedAt");
    reveal_strlit("milestones");
    reveal_strlit("roster");
    reveal_strlit("gates");
    reveal_strlit("config");
    reveal_with_fuel(key_index, 12);
    assert("id"@.len() == 2 && "title"@.len() == 5 && "description"@.len() == 11);
    assert("topology"@.len() == 8 && "state"@.len() == 5 && "createdAt"@.len() == 9);
    assert("updatedAt"@.len() == 9 && "milestones"@.len() == 10 && "roster"@.len() == 6);
    assert("gates"@.len() == 5 && "config"@.len() == 6);
    assert("title"@[0] == 't' && "state"@[0] == 's' && "gates"@[0] == 'g');
    assert("createdAt"@[0] == 'c' && "updatedAt"@[0] == 'u');
    assert("roster"@[0] == 'r' && "config"@[0] == 'c');
    lemma_names_read_back();
    lemma_config_reads_back(t.config);
    assert forall|i: int| 0 <= i < t.milestones.len() implies milestone_of(
        milestone_json(#[trigger] t.milestones[i]),
    ) == Some(t.milestones[i]) by {
        lemma_milestone_reads_back(t.milestones[i]);
    }
    assert forall|i: int| 0 <= i < t.roster.len() implies agent_of(
        agent_json(#[trigger] t.roster[i]),
    ) == Some(t.roster[i]) by {
        lemma_agent_reads_back(t.roster[i]);
    }
    assert forall|i: int| 0 <= i < t.gates.len() implies gate_of(gate_json(#[trigger] t.gates[i]))
        == Some(t.gates[i]) by {
        lemma_gate_reads_back(t.gates[i]);
    }
    lemma_read_each_reads_back(
        t.milestones,
        |m: MilestoneV| milestone_json(m),
        |d: JsonV| milestone_of(d),
    );
    lemma_read_each_reads_back(t.roster, |a: AgentInstanceV| agent_json(a), |d: JsonV| agent_of(d));
    lemma_read_each_reads_back(t.gates, |g: GateV| gate_json(g), |d: JsonV| gate_of(d));
    let doc = task_json(t);
    assert(doc.get("id"@) == Some(JsonV::Str(t.id)));
    assert(doc.get("title"@) == Some(JsonV::Str(t.title)));
    assert(doc.get("description"@) == Some(JsonV::Str(t.description)));
    assert(doc.get("topology"@) == Some(JsonV::Str(topology_name(t.topology))));
    assert(doc.get("state"@) == Some(JsonV::Str(task_state_name(t.state))));
    assert(doc.get("createdAt"@) == Some(time_json(t.created_at)));
    assert(doc.get("updatedAt"@) == Some(time_json(t.updated_at)));
    assert(doc.get("milestones"@) == Some(
        JsonV::Array(Seq::new(t.milestones.len(), |i: int| milestone_json(t.milestones[i]))),
    ));
    assert(doc.get("roster"@) == Some(
        JsonV::Array(Seq::new(t.roster.len(), |i: int| agent_json(t.roster[i]))),
    ));
    assert(doc.get("gates"@) == Some(
        JsonV::Array(Seq::new(t.gates.len(), |i: int| gate_json(t.gates[i]))),
    ));
    assert(doc.get("config"@) == Some(config_json(t.config)));
    assert(Seq::new(t.milestones.len(), |i: int| milestone_json(t.milestones[i])) =~= Seq::new(
        t.milestones.len(),
        |i: int| (|m: MilestoneV| milestone_json(m))(t.milestones[i]),
    ));
    assert(Seq::new(t.roster.len(), |i: int| agent_json(t.roster[i])) =~= Seq::new(
        t.roster.len(),
        |i: int| (|a: AgentInstanceV| agent_json(a))(t.roster[i]),
    ));
    assert(Seq::new(t.gates.len(), |i: int| gate_json(t.gates[i])) =~= Seq::new(
        t.gates.len(),
        |i: int| (|g: GateV| gate_json(g))(t.gates[i]),
    ));
}

/// Writes the descriptor of a task as a document.
///
/// A descriptor whose instants are well formed is read back from the document, by
/// `decode_task`, as the descriptor that was written, field by field.
pub fn encode_task(task: &TaskFile) -> (r: Json)
    ensures
        r@ == task_json(task@),
        task_wf(task@) ==> forall|now: Timestamp| #[trigger] task_of(r@, now) == Some(task@),
{
    let mut f: Vec<(String, Json)> = Vec::new();
    field(&mut f, "id", Json::Str(copy_string(&task.id)));
    field(&mut f, "title", Json::Str(copy_string(&task.title)));
    field(&mut f, "description", Json::Str(copy_string(&task.description)));
    field(&mut f, "topology", Json::string(crate::orchestrator::format_task_topology(task.topology)));
    field(&mut f, "state", Json::string(crate::orchestrator::format_task_state(task.state)));
    field(&mut f, "createdAt", write_time(task.created_at));
    field(&mut f, "updatedAt", write_time(task.updated_at));
    field(&mut f, "milestones", encode_milestones(&task.milestones));
    field(&mut f, "roster", encode_roster(&task.roster));
    field(&mut f, "gates", encode_gates(&task.gates));
    field(&mut f, "config", encode_config(&task.config));
    proof {
        assert(Seq::new(task.milestones.len() as nat, |i: int| milestone_json(task.milestones@[i]@))
            =~= Seq::new(task@.milestones.len(), |i: int| milestone_json(task@.milestones[i])));
        assert(Seq::new(task.roster.len() as nat, |i: int| agent_json(task.roster@[i]@))
            =~= Seq::new(task@.roster.len(), |i: int| agent_json(task@.roster[i])));
        assert(Seq::new(task.gates.len() as nat, |i: int| gate_json(task.gates@[i]@)) =~= Seq::new(
            task@.gates.len(),
            |i: int| gate_json(task@.gates[i]),
        ));
        assert(crate::json::members_view(f@) =~= task_json(task@)->Object_0);
        if task_wf(task@) {
            assert forall|i: int| 0 <= i < task.gates.len() implies gate_wf(
                #[trigger] task.gates@[i]@,
            ) by {
                assert(task@.gates[i] == task.gates@[i]@);
            }
            assert forall|i: int| 0 <= i < task@.gates.len() implies gate_reads_back(
                #[trigger] task@.gates[i],
            ) by {
                assert(task@.gates[i] == task.gates@[i]@);
            }
            assert forall|now: Timestamp| #[trigger]
                task_of(task_json(task@), now) == Some(task@) by {
                law_task_round_trip(task@, now);
            }
        }
    }
    Json::Object(f)
}

/// Reads the descriptor of a task from a document. The instants of its creation and of
/// its last update are `now` where the document names none.
pub fn decode_task(doc: &Json, now: Timestamp) -> (r: Option<TaskFile>)
    ensures
        read_view(r) == task_of(doc@, now),
{
    let id = read_text(doc, "id");
    let title = read_text(doc, "title");
    let description = read_text_or_empty(doc, "description");
    let topology = match doc.str_at("topology") {
        Some(name) => topology_from_name(name.as_str()),
        None => None,
    };
    let state = match doc.str_at("state") {
        Some(name) => task_state_from_name(name.as_str()),
        None => None,
    };
    let created_at = read_time_or(doc, "createdAt", now);
    let updated_at = read_time_or(doc, "updatedAt", now);
    let (id, title, description, topology, state, created_at, updated_at) = match (
        id,
        title,
        description,
        topology,
        state,
        created_at,
        updated_at,
    ) {
        (Some(a), Some(b), Some(c), Some(d), Some(e), Some(f), Some(g)) => (a, b, c, d, e, f, g),
        _ => {
            return None;
        },
    };
    let milestones = decode_milestones(doc, "milestones");
    let roster = decode_roster(doc, "roster");
    let gates = decode_gates(doc, "gates");
    let config = match doc.get("config") {
        None => Some(
            TaskConfig { max_concurrent_agents: 3, timeout_seconds: 3600, auto_approve: false },
        ),
        Some(c) => decode_config(c),
    };
    match (milestones, roster, gates, config) {
        (Some(milestones), Some(roster), Some(gates), Some(config)) => Some(
            TaskFile {
                id: id,
                title: title,
                description: description,
                topology: topology,
                state: state,
                created_at: created_at,
                updated_at: updated_at,
                milestones: milestones,
                roster: roster,
                gates: gates,
                config: config,
            },
        ),
        _ => None,
    }
}

/// An event of the log of a task as a document, its members in the order of the event.
pub open spec fn event_json(e: TaskEventV) -> JsonV {
    JsonV::Object(
        seq![
            ("ts"@, time_json(e.ts)),
            ("type"@, JsonV::Str(e.event_type)),
            ("taskId"@, JsonV::Str(e.task_id)),
            ("agentInstance"@, optional_json(e.agent_instance)),
            ("turnId"@, optional_json(e.turn_id)),
            ("payload"@, e.payload),
            ("by"@, optional_json(e.by)),
            ("path"@, optional_json(e.path)),
        ],
    )
}

/// The instant that the member `key` holds.
pub open spec fn required_time(doc: JsonV, key: Seq<char>) -> Option<Timestamp> {
    match doc.get(key) {
        Some(JsonV::Str(s)) => parsed_timestamp(s),
        _ => None,
    }
}

/// The event that a document holds: an object with an instant `ts` and the strings
/// `type` and `taskId`. Its payload is `null` where it is missing, and every other member
/// may be missing.
pub open spec fn event_of(doc: JsonV) -> Option<TaskEventV> {
    match (
        required_time(doc, "ts"@),
        required_text(doc, "type"@),
        required_text(doc, "taskId"@),
        optional_text(doc, "agentInstance"@),
        optional_text(doc, "turnId"@),
        optional_text(doc, "by"@),
        optional_text(doc, "path"@),
    ) {
        (
            Some(ts),
            Some(event_type),
            Some(task_id),
            Some(agent_instance),
            Some(turn_id),
            Some(by),
            Some(path),
        ) => Some(
            TaskEventV {
                ts: ts,
                event_type: event_type,
                task_id: task_id,
                agent_instance: agent_instance,
                turn_id: turn_id,
                payload: match doc.get("payload"@) {
                    Some(p) => p,
                    None => JsonV::Null,
                },
                by: by,
                path: path,
            },
        ),
        _ => None,
    }
}

/// An event that was written reads back, where its instant does.
pub proof fn lemma_event_reads_back(e: TaskEventV)
    requires
        reads_back(e.ts),
    ensures
        event_of(event_json(e)) == Some(e),
{
    reveal_strlit("ts");
    reveal_strlit("type");
    reveal_strlit("taskId");
    reveal_strlit("agentInstance");
    reveal_strlit("turnId");
    reveal_strlit("payload");
    reveal_strlit("by");
    reveal_strlit("path");
    reveal_with_fuel(key_index, 9);
    assert("ts"@.len() == 2 && "by"@.len() == 2 && "type"@.len() == 4 && "path"@.len() == 4);
    assert("taskId"@.len() == 6 && "turnId"@.len() == 6 && "payload"@.len() == 7);
    assert("agentInstance"@.len() == 13);
    assert("ts"@[0] == 't' && "by"@[0] == 'b' && "type"@[0] == 't' && "path"@[0] == 'p');
    assert("taskId"@[1] == 'a' && "turnId"@[1] == 'u');
    let doc = event_json(e);
    assert(doc.get("ts"@) == Some(time_json(e.ts)));
    assert(doc.get("type"@) == Some(JsonV::Str(e.event_type)));
    assert(doc.get("taskId"@) == Some(JsonV::Str(e.task_id)));
    assert(doc.get("agentInstance"@) == Some(optional_json(e.agent_instance)));
    assert(doc.get("turnId"@) == Some(optional_json(e.turn_id)));
    assert(doc.get("payload"@) == Some(e.payload));
    assert(doc.get("by"@) == Some(optional_json(e.by)));
    assert(doc.get("path"@) == Some(optional_json(e.path)));
}

/// Writes an event as a document.
///
/// An event whose instant is well formed is read back from the document, by
/// `decode_event`, as the event that was written.
pub fn encode_event(e: &TaskEvent) -> (r: Json)
    ensures
        r@ == event_json(e@),
        e.ts.wf() ==> event_of(r@) == Some(e@),
{
    let mut f: Vec<(String, Json)> = Vec::new();
    field(&mut f, "ts", write_time(e.ts));
    field(&mut f, "type", Json::Str(copy_string(&e.event_type)));
    field(&mut f, "taskId", Json::Str(copy_string(&e.task_id)));
    field(&mut f, "agentInstance", write_optional(&e.agent_instance));
    field(&mut f, "turnId", write_optional(&e.turn_id));
    field(&mut f, "payload", e.payload.copy());
    field(&mut f, "by", write_optional(&e.by));
    field(&mut f, "path", write_optional(&e.path));
    proof {
        assert(crate::json::members_view(f@) =~= event_json(e@)->Object_0);
        if e.ts.wf() {
            lemma_event_reads_back(e@);
        }
    }
    Json::Object(f)
}

/// Reads an event from a document.
pub fn decode_event(doc: &Json) -> (r: Option<TaskEvent>)
    ensures
        read_view(r) == event_of(doc@),
{
    let ts = match doc.get("ts") {
        Some(v) => match v {
            Json::Str(s) => parse_rfc3339(s.as_str()),
            _ => None,
        },
        None => None,
    };
    let event_type = read_text(doc, "type");
    let task_id = read_text(doc, "taskId");
    let agent_instance = read_optional_text(doc, "agentInstance");
    let turn_id = read_optional_text(doc, "turnId");
    let by = read_optional_text(doc, "by");
    let path = read_optional_text(doc, "path");
    match (ts, event_type, task_id, agent_instance, turn_id, by, path) {
        (
            Some(ts),
            Some(event_type),
            Some(task_id),
            Some(agent_instance),
            Some(turn_id),
            Some(by),
            Some(path),
        ) => Some(
            TaskEvent {
                ts: ts,
                event_type: event_type,
                task_id: task_id,
                agent_instance: agent_instance,
                turn_id: turn_id,
                payload: match doc.get("payload") {
                    Some(p) => p.copy(),
                    None => Json::Null,
                },
                by: by,
                path: path,
            },
        ),
        _ => None,
    }
}

/// The line that the log of a task gets for an event: the compact text of the event and
/// a line feed.
pub fn event_line(e: &TaskEvent) -> (r: String)
    ensures
        r@ == compact_json(event_json(e@)).push('\n'),
{
    let doc = encode_event(e);
    let text = to_text(&doc);
    let mut out = chars_of(text.as_str());
    out.push('\n');
    string_of(&out)
}

/// The event that a line of the log holds; nothing where the line is no event.
pub open spec fn event_in_line(line: Seq<char>) -> Option<TaskEventV> {
    match parsed_json(line) {
        Some(doc) => event_of(doc),
        None => None,
    }
}

/// The events of the first `n` lines of a log, each line taken without the white space
/// around it and blank lines passed over; nothing where one of the lines is no event.
pub open spec fn events_in(all: Seq<Seq<char>>, n: int) -> Option<Seq<TaskEventV>>
    decreases n,
{
    if n <= 0 || n > all.len() {
        Some(Seq::empty())
    } else {
        match events_in(all, n - 1) {
            None => None,
            Some(rest) => if trim(all[n - 1]).len() == 0 {
                Some(rest)
            } else {
                match event_in_line(trim(all[n - 1])) {
                    Some(e) => Some(rest.push(e)),
                    None => None,
                }
            },
        }
    }
}

/// A log of which one of the first `n` lines is no event has no events.
pub proof fn lemma_events_in_fails(all: Seq<Seq<char>>, n: int, m: int)
    requires
        0 <= n <= m <= all.len(),
        events_in(all, n) is None,
    ensures
        events_in(all, m) is None,
    decreases m - n,
{
    if n < m {
        lemma_events_in_fails(all, n, m - 1);
    }
}

/// Reads the events of the log of a task. A line that is no event is a hard error: the
/// log is written by this library alone.
#[verifier::loop_isolation(false)]
pub fn parse_event_log(text: &str) -> (r: Result<Vec<TaskEvent>, TaskStoreError>)
    ensures
        match events_in(lines(text@), lines(text@).len() as int) {
            Some(events) => r matches Ok(v) && views(v@) == events,
            None => r matches Err(TaskStoreError::Json(_)),
        },
{
    let content = chars_of(text);
    let all = split_lines(&content);
    let mut out: Vec<TaskEvent> = Vec::new();
    proof {
        assert(views(out@) =~= Seq::<TaskEventV>::empty());
    }
    let mut i: usize = 0;
    while i < all.len()
        invariant
            i <= all.len(),
            events_in(lines(text@), i as int) == Some(views(out@)),
        decreases all.len() - i,
    {
        proof {
            assert(texts(all@)[i as int] == all@[i as int]@);
        }
        let line = trim_text(&all[i]);
        if line.len() > 0 {
            let s = string_of(&line);
            let event = match parse(s.as_str()) {
                Some(doc) => decode_event(&doc),
                None => None,
            };
            match event {
                Some(e) => {
                    proof {
                        lemma_views_push(out@, e);
                    }
                    out.push(e);
                },
                None => {
                    proof {
                        assert(events_in(lines(text@), i as int + 1) is None);
                        lemma_events_in_fails(lines(text@), i as int + 1, all.len() as int);
                    }
                    return Err(TaskStoreError::Json(owned("event log holds a line that is no event")));
                },
            }
        }
        i += 1;
    }
    Ok(out)
}

/// Writes the descriptor of a task as the YAML text of its file.
pub fn task_to_yaml(task: &TaskFile) -> (r: String)
    ensures
        r@ == yaml_text(task_json(task@)),
{
    let doc = encode_task(task);
    to_yaml_text(&doc)
}

/// Reads the descriptor of a task from the YAML text of its file. A text that is no
/// descriptor is an error of YAML.
pub fn task_from_yaml(text: &str, now: Timestamp) -> (r: Result<TaskFile, TaskStoreError>)
    ensures
        match parsed_yaml(text@) {
            Some(doc) => match task_of(doc, now) {
                Some(t) => r matches Ok(task) && task@ == t,
                None => r matches Err(TaskStoreError::Yaml(_)),
            },
            None => r matches Err(TaskStoreError::Yaml(_)),
        },
{
    match parse_yaml(text) {
        Some(doc) => match decode_task(&doc, now) {
            Some(task) => Ok(task),
            None => Err(TaskStoreError::Yaml(owned("task descriptor does not follow the schema"))),
        },
        None => Err(TaskStoreError::Yaml(owned("task descriptor is not valid YAML"))),
    }
}

/// The subtask that a document holds: an object with the strings `taskId`, `title`,
/// `agent`, `adapter` and `prompt`; every other member may be missing.
pub open spec fn subtask_of(doc: JsonV) -> Option<OrchestratorSubtaskV> {
    match (
        required_text(doc, "taskId"@),
        optional_text(doc, "agentInstance"@),
        required_text(doc, "title"@),
        required_text(doc, "agent"@),
        required_text(doc, "adapter"@),
        required_text(doc, "prompt"@),
    ) {
        (Some(task_id), Some(agent_instance), Some(title), Some(agent), Some(adapter), Some(prompt)) =>
            match (
            optional_text(doc, "mode"@),
            optional_text(doc, "forkedFromThreadId"@),
            optional_text(doc, "cwd"@),
            optional_text(doc, "outputSchemaPath"@),
        ) {
            (Some(mode), Some(forked), Some(cwd), Some(schema)) => Some(
                OrchestratorSubtaskV {
                    task_id: task_id,
                    agent_instance: agent_instance,
                    title: title,
                    agent: agent,
                    adapter: adapter,
                    prompt: prompt,
                    mode: mode,
                    forked_from_thread_id: forked,
                    cwd: cwd,
                    output_schema_path: schema,
                },
            ),
            _ => None,
        },
        _ => None,
    }
}

/// The plan that a document holds: an object with the string `sessionGoal` and the list
/// `tasks` of its subtasks.
pub open spec fn actions_of(doc: JsonV) -> Option<OrchestratorActionsV> {
    match (required_text(doc, "sessionGoal"@), doc.get("tasks"@)) {
        (Some(goal), Some(JsonV::Array(items))) => match read_each(
            items,
            |d: JsonV| subtask_of(d),
        ) {
            Some(tasks) => Some(OrchestratorActionsV { session_goal: goal, tasks: tasks }),
            None => None,
        },
        _ => None,
    }
}

/// Reads a subtask from a document.
pub fn decode_subtask(doc: &Json) -> (r: Option<OrchestratorSubtask>)
    ensures
        read_view(r) == subtask_of(doc@),
{
    let task_id = read_text(doc, "taskId");
    let agent_instance = read_optional_text(doc, "agentInstance");
    let title = read_text(doc, "title");
    let agent = read_text(doc, "agent");
    let adapter = read_text(doc, "adapter");
    let prompt = read_text(doc, "prompt");
    let (task_id, agent_instance, title, agent, adapter, prompt) = match (
        task_id,
        agent_instance,
        title,
        agent,
        adapter,
        prompt,
    ) {
        (Some(a), Some(b), Some(c), Some(d), Some(e), Some(f)) => (a, b, c, d, e, f),
        _ => {
            return None;
        },
    };
    let mode = read_optional_text(doc, "mode");
    let forked = read_optional_text(doc, "forkedFromThreadId");
    let cwd = read_optional_text(doc, "cwd");
    let schema = read_optional_text(doc, "outputSchemaPath");
    match (mode, forked, cwd, schema) {
        (Some(mode), Some(forked), Some(cwd), Some(schema)) => Some(
            OrchestratorSubtask {
                task_id: task_id,
                agent_instance: agent_instance,
                title: title,
                agent: agent,
                adapter: adapter,
                prompt: prompt,
                mode: mode,
                forked_from_thread_id: forked,
                cwd: cwd,
                output_schema_path: schema,
            },
        ),
        _ => None,
    }
}

/// Reads a plan from its JSON text. A text that is no plan is an error of JSON.
#[verifier::loop_isolation(false)]
pub fn parse_actions(text: &str) -> (r: Result<OrchestratorActions, OrchestratorError>)
    ensures
        match parsed_json(text@) {
            Some(doc) => match actions_of(doc) {
                Some(a) => r matches Ok(actions) && actions@ == a,
                None => r matches Err(OrchestratorError::Json(_)),
            },
            None => r matches Err(OrchestratorError::Json(_)),
        },
{
    let doc = match parse(text) {
        Some(d) => d,
        None => {
            return Err(OrchestratorError::Json(owned("plan is not valid JSON")));
        },
    };
    let goal = match read_text(&doc, "sessionGoal") {
        Some(g) => g,
        None => {
            return Err(OrchestratorError::Json(owned("plan has no sessionGoal")));
        },
    };
    let items = match doc.get("tasks") {
        Some(v) => match v.as_array() {
            Some(items) => items,
            None => {
                return Err(OrchestratorError::Json(owned("plan has no list of tasks")));
            },
        },
        None => {
            return Err(OrchestratorError::Json(owned("plan has no list of tasks")));
        },
    };
    let ghost read = |d: JsonV| subtask_of(d);
    let ghost iv = list_view(items@);
    proof {
        lemma_list_view(items@);
    }
    let mut tasks: Vec<OrchestratorSubtask> = Vec::new();
    proof {
        assert(views(tasks@) =~= Seq::<OrchestratorSubtaskV>::empty());
    }
    let mut i: usize = 0;
    while i < items.len()
        invariant
            i <= items.len(),
            read_each(iv.take(i as int), read) == Some(views(tasks@)),
        decreases items.len() - i,
    {
        proof {
            assert(iv.take(i as int + 1).drop_last() =~= iv.take(i as int));
            assert(iv.take(i as int + 1).last() == items@[i as int]@);
        }
        match decode_subtask(&items[i]) {
            Some(t) => {
                proof {
                    lemma_views_push(tasks@, t);
                }
                tasks.push(t);
            },
            None => {
                proof {
                    assert(read(iv.take(i as int + 1).last()) is None);
                    assert(read_each(iv.take(i as int + 1), read) is None);
                    lemma_read_each_fails(iv, read, i as int + 1);
                }
                return Err(OrchestratorError::Json(owned("plan holds a task that is none")));
            },
        }
        i += 1;
    }
    proof {
        assert(iv.take(items.len() as int) =~= iv);
    }
    Ok(OrchestratorActions { session_goal: goal, tasks: tasks })
}

} // verus!
