//! What the command line prints: one row of text for each task, event and agent, and the
//! documents that stand for them where documents are asked for.

use vstd::prelude::*;
use crate::json::{empty_object, list_view, lemma_list_view_push, Json, JsonV};
use crate::codec::{encode_event, encode_task, event_json, task_json};
use crate::orchestrator::{format_task_state, format_task_topology};
use crate::reconcile::{SubagentInfo, SubagentInfoV};
use crate::split::{decimal, push_decimal};
use crate::supervisor::{SubagentSpawnResponse, SubagentWaitAnyResult};
use crate::task::{CreateTaskResponse, TaskEvent, TaskEventV, TaskFile, TaskFileV};
use crate::codec::{task_state_name, topology_name};
use crate::text::{append_str, chars_of, is_blank, is_blank_text, string_of, views};
use crate::time::{format_rfc3339, rfc3339_text};

verus! {

/// The row of a task in the list of the tasks: its identifier, its state and its title,
/// with a tab between them.
pub open spec fn task_row_text(task: TaskFileV) -> Seq<char> {
    task.id + "\t"@ + task_state_name(task.state) + "\t"@ + task.title
}

/// The row of a task in the list of the tasks.
pub fn task_row(task: &TaskFile) -> (r: String)
    ensures
        r@ == task_row_text(task@),
{
    let mut out = chars_of(task.id.as_str());
    append_str(&mut out, "\t");
    append_str(&mut out, format_task_state(task.state));
    append_str(&mut out, "\t");
    append_str(&mut out, task.title.as_str());
    string_of(&out)
}

/// A line that names a value.
pub open spec fn labelled(label: Seq<char>, value: Seq<char>) -> Seq<char> {
    label + ": "@ + value
}

/// The lines that show a task: its identifier and title, its description where that is
/// not blank, its topology and state, the dates of its creation and last update, and how
/// many milestones, agents and gates it has.
pub open spec fn task_summary_lines(task: TaskFileV) -> Seq<Seq<char>> {
    let head = seq![labelled("id"@, task.id), labelled("title"@, task.title)];
    let described = if is_blank(task.description) {
        head
    } else {
        head.push(labelled("description"@, task.description))
    };
    described.push(labelled("topology"@, topology_name(task.topology))).push(
        labelled("state"@, task_state_name(task.state)),
    ).push(
        labelled("createdAt"@, rfc3339_text(task.created_at.secs, task.created_at.nanos)),
    ).push(
        labelled("updatedAt"@, rfc3339_text(task.updated_at.secs, task.updated_at.nanos)),
    ).push(labelled("milestones"@, decimal(task.milestones.len()))).push(
        labelled("roster"@, decimal(task.roster.len())),
    ).push(labelled("gates"@, decimal(task.gates.len())))
}

/// Writes a line that names a value.
fn labelled_line(label: &str, value: &str) -> (r: String)
    ensures
        r@ == labelled(label@, value@),
{
    let mut out = chars_of(label);
    append_str(&mut out, ": ");
    append_str(&mut out, value);
    string_of(&out)
}

/// Writes a line that names a count.
fn counted_line(label: &str, count: usize) -> (r: String)
    ensures
        r@ == labelled(label@, decimal(count as nat)),
{
    let mut out = chars_of(label);
    append_str(&mut out, ": ");
    push_decimal(&mut out, count as u64);
    string_of(&out)
}

/// Adds a line to the lines.
fn add_line(lines: &mut Vec<String>, line: String)
    ensures
        views(final(lines)@) == views(old(lines)@).push(line@),
{
    proof {
        crate::text::lemma_views_push(lines@, line);
    }
    lines.push(line);
}

/// The lines that show a task.
pub fn task_summary(task: &TaskFile) -> (out: Vec<String>)
    ensures
        views(out@) == task_summary_lines(task@),
{
    let mut out: Vec<String> = Vec::new();
    proof {
        assert(views(out@) =~= Seq::<Seq<char>>::empty());
    }
    add_line(&mut out, labelled_line("id", task.id.as_str()));
    add_line(&mut out, labelled_line("title", task.title.as_str()));
    proof {
        assert(views(out@) =~= seq![labelled("id"@, task@.id), labelled("title"@, task@.title)]);
    }
    let description = chars_of(task.description.as_str());
    if !is_blank_text(&description) {
        add_line(&mut out, labelled_line("description", task.description.as_str()));
    }
    add_line(&mut out, labelled_line("topology", format_task_topology(task.topology)));
    add_line(&mut out, labelled_line("state", format_task_state(task.state)));
    let created = format_rfc3339(task.created_at);
    add_line(&mut out, labelled_line("createdAt", created.as_str()));
    let updated = format_rfc3339(task.updated_at);
    add_line(&mut out, labelled_line("updatedAt", updated.as_str()));
    proof {
        assert(task@.milestones.len() == task.milestones@.len());
        assert(task@.roster.len() == task.roster@.len());
        assert(task@.gates.len() == task.gates@.len());
    }
    add_line(&mut out, counted_line("milestones", task.milestones.len()));
    add_line(&mut out, counted_line("roster", task.roster.len()));
    add_line(&mut out, counted_line("gates", task.gates.len()));
    out
}

/// The row of an event: its date, its type and who issued it (`-` where nobody is
/// named), with a tab between them.
pub open spec fn event_row_text(e: TaskEventV) -> Seq<char> {
    rfc3339_text(e.ts.secs, e.ts.nanos) + "\t"@ + e.event_type + "\tby="@ + match e.by {
        Some(by) => by,
        None => "-"@,
    }
}

/// The row of an event.
pub fn event_row(e: &TaskEvent) -> (r: String)
    ensures
        r@ == event_row_text(e@),
{
    let date = format_rfc3339(e.ts);
    let mut out = chars_of(date.as_str());
    append_str(&mut out, "\t");
    append_str(&mut out, e.event_type.as_str());
    append_str(&mut out, "\tby=");
    match &e.by {
        Some(by) => append_str(&mut out, by.as_str()),
        None => append_str(&mut out, "-"),
    }
    string_of(&out)
}

/// The row of a started agent: its name and the process that runs it.
pub open spec fn spawn_row_text(agent_instance: Seq<char>, pid: u32) -> Seq<char> {
    agent_instance + "\tpid="@ + decimal(pid as nat)
}

/// The row of a started agent.
pub fn spawn_row(resp: &SubagentSpawnResponse) -> (r: String)
    ensures
        r@ == spawn_row_text(resp.agent_instance@, resp.pid),
{
    let mut out = chars_of(resp.agent_instance.as_str());
    append_str(&mut out, "\tpid=");
    push_decimal(&mut out, resp.pid as u64);
    string_of(&out)
}

/// The document of a started agent.
pub fn spawn_json(resp: &SubagentSpawnResponse) -> (r: Json)
    ensures
        r@ == empty_object().with("agentInstance"@, JsonV::Str(resp.agent_instance@)).with(
            "pid"@,
            JsonV::UInt(resp.pid as u64),
        ),
{
    let mut doc = Json::object();
    doc.set("agentInstance", Json::string(resp.agent_instance.as_str()));
    doc.set("pid", Json::UInt(resp.pid as u64));
    doc
}

/// The row of an agent: its name, its status and its role, with a tab between them.
pub open spec fn subagent_row_text(a: SubagentInfoV) -> Seq<char> {
    a.agent_instance + "\t"@ + a.status.name() + "\t"@ + a.agent
}

/// The row of an agent.
pub fn subagent_row(a: &SubagentInfo) -> (r: String)
    ensures
        r@ == subagent_row_text(a@),
{
    let mut out = chars_of(a.agent_instance.as_str());
    append_str(&mut out, "\t");
    append_str(&mut out, a.status.as_str());
    append_str(&mut out, "\t");
    append_str(&mut out, a.agent.as_str());
    string_of(&out)
}

/// An agent as a document: its role, its name and its status.
pub open spec fn subagent_doc(a: SubagentInfoV) -> JsonV {
    empty_object().with("agent"@, JsonV::Str(a.agent)).with(
        "agentInstance"@,
        JsonV::Str(a.agent_instance),
    ).with("status"@, JsonV::Str(a.status.name()))
}

/// The document of an agent.
pub fn subagent_json(a: &SubagentInfo) -> (r: Json)
    ensures
        r@ == subagent_doc(a@),
{
    let mut doc = Json::object();
    doc.set("agent", Json::string(a.agent.as_str()));
    doc.set("agentInstance", Json::string(a.agent_instance.as_str()));
    doc.set("status", Json::string(a.status.as_str()));
    doc
}

/// The document of the agents of a task: an array with the document of each, in their
/// order.
pub fn subagents_json(infos: &Vec<SubagentInfo>) -> (r: Json)
    ensures
        r@ == JsonV::Array(Seq::new(infos@.len(), |i: int| subagent_doc(infos@[i]@))),
{
    let mut items: Vec<Json> = Vec::new();
    proof {
        crate::json::lemma_list_view(items@);
    }
    let mut i: usize = 0;
    while i < infos.len()
        invariant
            i <= infos.len(),
            list_view(items@) == Seq::new(i as nat, |k: int| subagent_doc(infos@[k]@)),
        decreases infos.len() - i,
    {
        let doc = subagent_json(&infos[i]);
        proof {
            lemma_list_view_push(items@, doc);
            assert(Seq::new(i as nat, |k: int| subagent_doc(infos@[k]@)).push(doc@) =~= Seq::new(
                (i + 1) as nat,
                |k: int| subagent_doc(infos@[k]@),
            ));
        }
        items.push(doc);
        i += 1;
    }
    Json::Array(items)
}

/// The row of the agent that a wait found: its name and its status.
pub fn wait_row(result: &SubagentWaitAnyResult) -> (r: String)
    ensures
        r@ == result.agent_instance@ + "\t"@ + result.status.name(),
{
    let mut out = chars_of(result.agent_instance.as_str());
    append_str(&mut out, "\t");
    append_str(&mut out, result.status.as_str());
    string_of(&out)
}

/// The document of the agent that a wait found.
pub fn wait_json(result: &SubagentWaitAnyResult) -> (r: Json)
    ensures
        r@ == empty_object().with("agentInstance"@, JsonV::Str(result.agent_instance@)).with(
            "status"@,
            JsonV::Str(result.status.name()),
        ),
{
    let mut doc = Json::object();
    doc.set("agentInstance", Json::string(result.agent_instance.as_str()));
    doc.set("status", Json::string(result.status.as_str()));
    doc
}

/// The row of a cancelled agent.
pub fn cancel_row(agent_instance: &str) -> (r: String)
    ensures
        r@ == "cancelled\t"@ + agent_instance@,
{
    let mut out = chars_of("cancelled\t");
    append_str(&mut out, agent_instance);
    string_of(&out)
}

/// The document of a cancelled agent.
pub fn cancel_json(agent_instance: &str) -> (r: Json)
    ensures
        r@ == empty_object().with("agentInstance"@, JsonV::Str(agent_instance@)).with(
            "cancelled"@,
            JsonV::Bool(true),
        ),
{
    let mut doc = Json::object();
    doc.set("agentInstance", Json::string(agent_instance));
    doc.set("cancelled", Json::Bool(true));
    doc
}

/// The document of a created task: its identifier and the message for the caller.
pub fn created_json(resp: &CreateTaskResponse) -> (r: Json)
    ensures
        r@ == empty_object().with("id"@, JsonV::Str(resp.id@)).with(
            "message"@,
            JsonV::Str(resp.message@),
        ),
{
    let mut doc = Json::object();
    doc.set("id", Json::string(resp.id.as_str()));
    doc.set("message", Json::string(resp.message.as_str()));
    doc
}

/// The document of the tasks: an array with the document of each, in their order.
pub fn tasks_json(tasks: &Vec<TaskFile>) -> (r: Json)
    ensures
        r@ == JsonV::Array(Seq::new(tasks@.len(), |i: int| task_json(tasks@[i]@))),
{
    let mut items: Vec<Json> = Vec::new();
    proof {
        crate::json::lemma_list_view(items@);
    }
    let mut i: usize = 0;
    while i < tasks.len()
        invariant
            i <= tasks.len(),
            list_view(items@) == Seq::new(i as nat, |k: int| task_json(tasks@[k]@)),
        decreases tasks.len() - i,
    {
        let doc = encode_task(&tasks[i]);
        proof {
            lemma_list_view_push(items@, doc);
            assert(Seq::new(i as nat, |k: int| task_json(tasks@[k]@)).push(doc@) =~= Seq::new(
                (i + 1) as nat,
                |k: int| task_json(tasks@[k]@),
            ));
        }
        items.push(doc);
        i += 1;
    }
    Json::Array(items)
}

/// The document of the events: an array with the document of each, in their order.
pub fn events_json(events: &Vec<TaskEvent>) -> (r: Json)
    ensures
        r@ == JsonV::Array(Seq::new(events@.len(), |i: int| event_json(events@[i]@))),
{
    let mut items: Vec<Json> = Vec::new();
    proof {
        crate::json::lemma_list_view(items@);
    }
    let mut i: usize = 0;
    while i < events.len()
        invariant
            i <= events.len(),
            list_view(items@) == Seq::new(i as nat, |k: int| event_json(events@[k]@)),
        decreases events.len() - i,
    {
        let doc = encode_event(&events[i]);
        proof {
            lemma_list_view_push(items@, doc);
            assert(Seq::new(i as nat, |k: int| event_json(events@[k]@)).push(doc@) =~= Seq::new(
                (i + 1) as nat,
                |k: int| event_json(events@[k]@),
            ));
        }
        items.push(doc);
        i += 1;
    }
    Json::Array(items)
}

} // verus!
