//! Joining: the final outputs of the agents of a task as one report, with an index of
//! the evidence that the report cites.

use vstd::prelude::*;
use crate::controller::JoinTaskResponse;
use crate::error::OrchestratorError;
use crate::json::{empty_object, parse, parsed_json, Json, JsonV};
use crate::orchestrator::Orchestrator;
use crate::paths::{joined, join_path};
use crate::reconcile::{read_snapshot, snapshot_of, WorkerSnapshotV};
use crate::split::{replace_char, replace_char_text};
use crate::task::{AgentInstanceV, TaskFile, TaskFileV, Timestamp};
use crate::text::{
    append_str, append_text, chars_of, copy_string, is_blank_text, lemma_views_push, opt_view,
    owned, string_of, trim, trim_text, views,
};
use crate::time::{format_rfc3339, rfc3339_text};

verus! {

/// What a report says of one worker.
#[derive(Debug, Clone, PartialEq, Eq)]
pub struct JoinedWorkerSummary {
    pub agent_instance: String,
    pub agent: String,
    pub status: String,
    pub summary: String,
    pub questions: Vec<String>,
    pub next_actions: Vec<String>,
}

/// The view of a [`JoinedWorkerSummary`].
pub struct JoinedWorkerSummaryV {
    pub agent_instance: Seq<char>,
    pub agent: Seq<char>,
    pub status: Seq<char>,
    pub summary: Seq<char>,
    pub questions: Seq<Seq<char>>,
    pub next_actions: Seq<Seq<char>>,
}

impl View for JoinedWorkerSummary {
    type V = JoinedWorkerSummaryV;

    open spec fn view(&self) -> JoinedWorkerSummaryV {
        JoinedWorkerSummaryV {
            agent_instance: self.agent_instance@,
            agent: self.agent@,
            status: self.status@,
            summary: self.summary@,
            questions: views(self.questions@),
            next_actions: views(self.next_actions@),
        }
    }
}

/// What a report says of an agent whose final artifact reads as `output`.
pub open spec fn worker_of(agent: AgentInstanceV, output: WorkerSnapshotV) -> JoinedWorkerSummaryV {
    JoinedWorkerSummaryV {
        agent_instance: agent.instance,
        agent: agent.agent,
        status: output.status,
        summary: output.summary,
        questions: output.questions,
        next_actions: output.next_actions,
    }
}

/// Where a piece of evidence comes from.
#[derive(Debug, Clone, PartialEq, Eq)]
pub enum EvidenceSource {
    FileAnchor { path: String, start_line: u32, end_line: u32 },
    CommandExecution {
        command: String,
        cwd: String,
        exit_code: Option<i32>,
        stdout_ref: Option<String>,
        stderr_ref: Option<String>,
    },
    RuntimeEventRange { events_ref: String, start_line: Option<u32>, end_line: Option<u32> },
}

/// The view of an [`EvidenceSource`].
pub enum EvidenceSourceV {
    FileAnchor { path: Seq<char>, start_line: u32, end_line: u32 },
    CommandExecution {
        command: Seq<char>,
        cwd: Seq<char>,
        exit_code: Option<i32>,
        stdout_ref: Option<Seq<char>>,
        stderr_ref: Option<Seq<char>>,
    },
    RuntimeEventRange { events_ref: Seq<char>, start_line: Option<u32>, end_line: Option<u32> },
}

impl View for EvidenceSource {
    type V = EvidenceSourceV;

    open spec fn view(&self) -> EvidenceSourceV {
        match self {
            EvidenceSource::FileAnchor { path, start_line, end_line } => EvidenceSourceV::FileAnchor {
                path: path@,
                start_line: *start_line,
                end_line: *end_line,
            },
            EvidenceSource::CommandExecution { command, cwd, exit_code, stdout_ref, stderr_ref } =>
                EvidenceSourceV::CommandExecution {
                    command: command@,
                    cwd: cwd@,
                    exit_code: *exit_code,
                    stdout_ref: opt_view(*stdout_ref),
                    stderr_ref: opt_view(*stderr_ref),
                },
            EvidenceSource::RuntimeEventRange { events_ref, start_line, end_line } =>
                EvidenceSourceV::RuntimeEventRange {
                    events_ref: events_ref@,
                    start_line: *start_line,
                    end_line: *end_line,
                },
        }
    }
}

/// An entry of the evidence index.
#[derive(Debug, Clone, PartialEq, Eq)]
pub struct EvidenceEntry {
    pub id: String,
    pub kind: String,
    pub title: String,
    pub summary: String,
    pub created_at: String,
    pub sources: Vec<EvidenceSource>,
    pub artifact_refs: Vec<String>,
}

/// The view of an [`EvidenceEntry`].
pub struct EvidenceEntryV {
    pub id: Seq<char>,
    pub kind: Seq<char>,
    pub title: Seq<char>,
    pub summary: Seq<char>,
    pub created_at: Seq<char>,
    pub sources: Seq<EvidenceSourceV>,
    pub artifact_refs: Seq<Seq<char>>,
}

impl View for EvidenceEntry {
    type V = EvidenceEntryV;

    open spec fn view(&self) -> EvidenceEntryV {
        EvidenceEntryV {
            id: self.id@,
            kind: self.kind@,
            title: self.title@,
            summary: self.summary@,
            created_at: self.created_at@,
            sources: views(self.sources@),
            artifact_refs: views(self.artifact_refs@),
        }
    }
}

/// The identifier under which the evidence of an agent is cited: `worker-` and the name
/// of the agent with `-` for every `_`.
pub open spec fn evidence_id(instance: Seq<char>) -> Seq<char> {
    "worker-"@ + replace_char(instance, '_', seq!['-'])
}

/// The identifier under which the evidence of an agent is cited.
pub fn evidence_id_for_agent_instance(agent_instance: &str) -> (r: String)
    ensures
        r@ == evidence_id(agent_instance@),
{
    let v = chars_of(agent_instance);
    let mut dash: Vec<char> = Vec::new();
    dash.push('-');
    proof {
        assert(dash@ =~= seq!['-']);
    }
    let normalized = replace_char_text(&v, '_', &dash);
    let mut out = chars_of("worker-");
    append_text(&mut out, &normalized);
    string_of(&out)
}

/// The recording of the events of an agent, relative to the directory of its task.
pub open spec fn events_ref(instance: Seq<char>) -> Seq<char> {
    "./agents/"@ + instance + "/runtime/events.jsonl"@
}

/// The final artifact of an agent, relative to the directory of its task.
pub open spec fn final_ref(instance: Seq<char>) -> Seq<char> {
    "./agents/"@ + instance + "/artifacts/final.json"@
}

/// The entry of the evidence index for a worker: a range of runtime events whose first
/// source is the recording of the events of the worker.
pub open spec fn evidence_of(w: JoinedWorkerSummaryV, created_at: Seq<char>) -> EvidenceEntryV {
    EvidenceEntryV {
        id: evidence_id(w.agent_instance),
        kind: "runtime-event-range"@,
        title: "Worker "@ + w.agent_instance + " runtime"@,
        summary: trim("["@ + w.status + "] "@ + trim(w.summary)),
        created_at: created_at,
        sources: seq![
            EvidenceSourceV::RuntimeEventRange {
                events_ref: events_ref(w.agent_instance),
                start_line: None,
                end_line: None,
            },
        ],
        artifact_refs: seq![final_ref(w.agent_instance), events_ref(w.agent_instance)],
    }
}

/// Builds the entry of the evidence index for a worker.
pub fn evidence_entry(w: &JoinedWorkerSummary, created_at: &str) -> (e: EvidenceEntry)
    ensures
        e@ == evidence_of(w@, created_at@),
{
    let mut title = chars_of("Worker ");
    append_str(&mut title, w.agent_instance.as_str());
    append_str(&mut title, " runtime");
    let summary_text = chars_of(w.summary.as_str());
    let trimmed = trim_text(&summary_text);
    let mut summary = chars_of("[");
    append_str(&mut summary, w.status.as_str());
    append_str(&mut summary, "] ");
    append_text(&mut summary, &trimmed);
    let summary = trim_text(&summary);
    let mut events = chars_of("./agents/");
    append_str(&mut events, w.agent_instance.as_str());
    append_str(&mut events, "/runtime/events.jsonl");
    let mut artifact = chars_of("./agents/");
    append_str(&mut artifact, w.agent_instance.as_str());
    append_str(&mut artifact, "/artifacts/final.json");
    let mut sources: Vec<EvidenceSource> = Vec::new();
    sources.push(
        EvidenceSource::RuntimeEventRange {
            events_ref: string_of(&events),
            start_line: None,
            end_line: None,
        },
    );
    let mut refs: Vec<String> = Vec::new();
    refs.push(string_of(&artifact));
    refs.push(string_of(&events));
    let e = EvidenceEntry {
        id: evidence_id_for_agent_instance(w.agent_instance.as_str()),
        kind: owned("runtime-event-range"),
        title: string_of(&title),
        summary: string_of(&summary),
        created_at: owned(created_at),
        sources: sources,
        artifact_refs: refs,
    };
    proof {
        assert(e@.sources =~= evidence_of(w@, created_at@).sources);
        assert(e@.artifact_refs =~= evidence_of(w@, created_at@).artifact_refs);
    }
    e
}

/// The evidence index for the first `n` workers: one entry for each, in order.
pub open spec fn evidence_index_of(
    workers: Seq<JoinedWorkerSummaryV>,
    created_at: Seq<char>,
    n: int,
) -> Seq<EvidenceEntryV>
    decreases n,
{
    if n <= 0 || n > workers.len() {
        Seq::empty()
    } else {
        evidence_index_of(workers, created_at, n - 1).push(evidence_of(workers[n - 1], created_at))
    }
}

/// Builds the evidence index: one entry for each worker, in order.
pub fn evidence_index(workers: &Vec<JoinedWorkerSummary>, created_at: &str) -> (out: Vec<
    EvidenceEntry,
>)
    ensures
        views(out@) == evidence_index_of(views(workers@), created_at@, workers.len() as int),
{
    let mut out: Vec<EvidenceEntry> = Vec::new();
    proof {
        assert(views(out@) =~= Seq::<EvidenceEntryV>::empty());
    }
    let mut i: usize = 0;
    while i < workers.len()
        invariant
            i <= workers.len(),
            views(out@) == evidence_index_of(views(workers@), created_at@, i as int),
        decreases workers.len() - i,
    {
        let e = evidence_entry(&workers[i], created_at);
        proof {
            lemma_views_push(out@, e);
        }
        out.push(e);
        i += 1;
    }
    out
}

/// The evidence index holds exactly one entry for each worker, in the order of the
/// workers, and the first source of each entry is the recording of the runtime events of
/// its worker, `./agents/<instance>/runtime/events.jsonl`.
pub proof fn law_one_evidence_entry_per_worker(
    workers: Seq<JoinedWorkerSummaryV>,
    created_at: Seq<char>,
    n: int,
)
    requires
        0 <= n <= workers.len(),
    ensures
        evidence_index_of(workers, created_at, n).len() == n,
        forall|i: int|
            0 <= i < n ==> {
                let e = #[trigger] evidence_index_of(workers, created_at, n)[i];
                &&& e.id == evidence_id(workers[i].agent_instance)
                &&& e.sources.len() == 1
                &&& e.sources[0] == EvidenceSourceV::RuntimeEventRange {
                    events_ref: "./agents/"@ + workers[i].agent_instance
                        + "/runtime/events.jsonl"@,
                    start_line: None,
                    end_line: None,
                }
            },
    decreases n,
{
    if n > 0 {
        law_one_evidence_entry_per_worker(workers, created_at, n - 1);
    }
}

/// The workers of the first `n` roster entries, each with what its final artifact reads
/// as; a roster entry without an artifact is reported as missing.
pub open spec fn workers_of(
    roster: Seq<AgentInstanceV>,
    finals: Seq<Option<JsonV>>,
    n: int,
) -> Seq<JoinedWorkerSummaryV>
    decreases n,
{
    if n <= 0 || n > roster.len() {
        Seq::empty()
    } else {
        workers_of(roster, finals, n - 1).push(
            worker_of(
                roster[n - 1],
                snapshot_of(
                    if n - 1 < finals.len() {
                        finals[n - 1]
                    } else {
                        None
                    },
                ),
            ),
        )
    }
}

/// The workers of a task have one entry for each roster entry.
pub proof fn lemma_workers_of_len(roster: Seq<AgentInstanceV>, finals: Seq<Option<JsonV>>, n: int)
    requires
        0 <= n <= roster.len(),
    ensures
        workers_of(roster, finals, n).len() == n,
        forall|i: int|
            0 <= i < n ==> (#[trigger] workers_of(roster, finals, n)[i]).agent_instance
                == roster[i].instance,
    decreases n,
{
    if n > 0 {
        lemma_workers_of_len(roster, finals, n - 1);
    }
}

/// The evidence index of a task holds exactly one entry for each roster entry, in the
/// order of the roster, whatever the final artifacts hold, and the first source of the
/// entry of an agent is the recording of the runtime events of that agent,
/// `./agents/<instance>/runtime/events.jsonl`.
pub proof fn law_evidence_index_covers_roster(
    roster: Seq<AgentInstanceV>,
    finals: Seq<Option<JsonV>>,
    created_at: Seq<char>,
)
    ensures
        ({
            let workers = workers_of(roster, finals, roster.len() as int);
            let index = evidence_index_of(workers, created_at, workers.len() as int);
            &&& index.len() == roster.len()
            &&& forall|i: int|
                0 <= i < roster.len() ==> {
                    let e = #[trigger] index[i];
                    &&& e.id == evidence_id(roster[i].instance)
                    &&& e.sources.len() == 1
                    &&& e.sources[0] == EvidenceSourceV::RuntimeEventRange {
                        events_ref: "./agents/"@ + roster[i].instance + "/runtime/events.jsonl"@,
                        start_line: None,
                        end_line: None,
                    }
                }
        }),
{
    let workers = workers_of(roster, finals, roster.len() as int);
    lemma_workers_of_len(roster, finals, roster.len() as int);
    law_one_evidence_entry_per_worker(workers, created_at, workers.len() as int);
    let index = evidence_index_of(workers, created_at, workers.len() as int);
    assert forall|i: int| 0 <= i < roster.len() implies {
        let e = #[trigger] index[i];
        &&& e.id == evidence_id(roster[i].instance)
        &&& e.sources.len() == 1
        &&& e.sources[0] == EvidenceSourceV::RuntimeEventRange {
            events_ref: "./agents/"@ + roster[i].instance + "/runtime/events.jsonl"@,
            start_line: None,
            end_line: None,
        }
    } by {
        assert(workers[i].agent_instance == roster[i].instance);
    }
}

/// The text with a backslash before every double quote.
pub open spec fn yaml_escaped(value: Seq<char>) -> Seq<char> {
    replace_char(value, '"', seq!['\\', '"'])
}

/// Escapes the double quotes of a text for a quoted YAML string.
pub fn escape_yaml_string(value: &str) -> (r: String)
    ensures
        r@ == yaml_escaped(value@),
{
    let v = chars_of(value);
    let mut rep: Vec<char> = Vec::new();
    rep.push('\\');
    rep.push('"');
    proof {
        assert(rep@ =~= seq!['\\', '"']);
    }
    let out = replace_char_text(&v, '"', &rep);
    string_of(&out)
}

/// The lines of a list: two blanks, a dash, a blank and the trimmed item, for each item.
pub open spec fn bullet_lines(items: Seq<Seq<char>>, n: int) -> Seq<char>
    decreases n,
{
    if n <= 0 || n > items.len() {
        Seq::empty()
    } else {
        bullet_lines(items, n - 1) + ("  - "@ + trim(items[n - 1]) + "\n"@)
    }
}

/// The section of a report for one worker.
pub open spec fn worker_section(w: JoinedWorkerSummaryV) -> Seq<char> {
    "### "@ + w.agent_instance + " ("@ + w.agent + ")\n\n"@ + "- status: `"@ + w.status + "`\n"@
        + "- evidence: evidence:"@ + evidence_id(w.agent_instance) + "\n"@ + (if trim(
        w.summary,
    ).len() > 0 {
        "- summary: "@ + trim(w.summary) + "\n"@
    } else {
        Seq::empty()
    }) + (if w.questions.len() > 0 {
        "- questions:\n"@ + bullet_lines(w.questions, w.questions.len() as int)
    } else {
        Seq::empty()
    }) + (if w.next_actions.len() > 0 {
        "- nextActions:\n"@ + bullet_lines(w.next_actions, w.next_actions.len() as int)
    } else {
        Seq::empty()
    }) + "\n"@
}

/// The sections of the first `n` workers.
pub open spec fn worker_sections(workers: Seq<JoinedWorkerSummaryV>, n: int) -> Seq<char>
    decreases n,
{
    if n <= 0 || n > workers.len() {
        Seq::empty()
    } else {
        worker_sections(workers, n - 1) + worker_section(workers[n - 1])
    }
}

/// The purpose that the head of a report states.
pub open spec fn report_purpose() -> Seq<char> {
    "purpose: \"\u{6c47}\u{603b}\u{591a}\u{4e2a} subagent \u{7684}\u{6700}\u{7ec8}\u{8f93}\u{51fa}\u{4e0e}\u{963b}\u{585e}\u{70b9}\"\n"@
}

/// The joined report of a task as markdown: a head in YAML, the title, and one section
/// for each worker.
pub open spec fn joined_markdown(
    task: TaskFileV,
    generated_at: Seq<char>,
    workers: Seq<JoinedWorkerSummaryV>,
) -> Seq<char> {
    "---\n"@ + "title: \"Joined Summary: "@ + yaml_escaped(task.title) + "\"\n"@ + report_purpose()
        + "tags: [\"joined-summary\", \"subagents\"]\n"@ + "task_id: \""@ + yaml_escaped(task.id)
        + "\"\n"@ + "generated_at: \""@ + generated_at + "\"\n"@ + "---\n\n"@
        + "# Joined Summary: "@ + task.title + "\n\n"@ + "- task: `"@ + task.id + "`\n"@
        + "- generatedAt: `"@ + generated_at + "`\n\n"@ + "## Workers\n\n"@ + worker_sections(
        workers,
        workers.len() as int,
    )
}

/// Writes the lines of a list.
pub fn render_bullets(items: &Vec<String>) -> (out: Vec<char>)
    ensures
        out@ == bullet_lines(views(items@), items.len() as int),
{
    let mut out: Vec<char> = Vec::new();
    let mut i: usize = 0;
    while i < items.len()
        invariant
            i <= items.len(),
            out@ == bullet_lines(views(items@), i as int),
        decreases items.len() - i,
    {
        let item = chars_of(items[i].as_str());
        let t = trim_text(&item);
        let mut line = chars_of("  - ");
        append_text(&mut line, &t);
        append_str(&mut line, "\n");
        append_text(&mut out, &line);
        i += 1;
    }
    out
}

/// Writes the section of a report for one worker.
pub fn render_worker_section(w: &JoinedWorkerSummary) -> (out: Vec<char>)
    ensures
        out@ == worker_section(w@),
{
    let mut out = chars_of("### ");
    append_str(&mut out, w.agent_instance.as_str());
    append_str(&mut out, " (");
    append_str(&mut out, w.agent.as_str());
    append_str(&mut out, ")\n\n");
    append_str(&mut out, "- status: `");
    append_str(&mut out, w.status.as_str());
    append_str(&mut out, "`\n");
    append_str(&mut out, "- evidence: evidence:");
    let id = evidence_id_for_agent_instance(w.agent_instance.as_str());
    append_str(&mut out, id.as_str());
    append_str(&mut out, "\n");
    let summary = chars_of(w.summary.as_str());
    let mut part: Vec<char> = Vec::new();
    if !is_blank_text(&summary) {
        let t = trim_text(&summary);
        append_str(&mut part, "- summary: ");
        append_text(&mut part, &t);
        append_str(&mut part, "\n");
        proof {
            assert(part@ =~= "- summary: "@ + trim(w.summary@) + "\n"@);
        }
    }
    append_text(&mut out, &part);
    let mut part: Vec<char> = Vec::new();
    if w.questions.len() > 0 {
        append_str(&mut part, "- questions:\n");
        let lines = render_bullets(&w.questions);
        append_text(&mut part, &lines);
        proof {
            assert(part@ =~= "- questions:\n"@ + bullet_lines(
                views(w.questions@),
                w.questions.len() as int,
            ));
        }
    }
    append_text(&mut out, &part);
    let mut part: Vec<char> = Vec::new();
    if w.next_actions.len() > 0 {
        append_str(&mut part, "- nextActions:\n");
        let lines = render_bullets(&w.next_actions);
        append_text(&mut part, &lines);
        proof {
            assert(part@ =~= "- nextActions:\n"@ + bullet_lines(
                views(w.next_actions@),
                w.next_actions.len() as int,
            ));
        }
    }
    append_text(&mut out, &part);
    append_str(&mut out, "\n");
    out
}

/// Writes the joined report of a task as markdown.
pub fn render_joined_summary_markdown(
    task: &TaskFile,
    generated_at: &str,
    workers: &Vec<JoinedWorkerSummary>,
) -> (r: String)
    ensures
        r@ == joined_markdown(task@, generated_at@, views(workers@)),
{
    let mut sections: Vec<char> = Vec::new();
    let mut i: usize = 0;
    while i < workers.len()
        invariant
            i <= workers.len(),
            sections@ == worker_sections(views(workers@), i as int),
        decreases workers.len() - i,
    {
        let s = render_worker_section(&workers[i]);
        append_text(&mut sections, &s);
        i += 1;
    }
    let title = escape_yaml_string(task.title.as_str());
    let id = escape_yaml_string(task.id.as_str());
    let mut out = chars_of("---\n");
    append_str(&mut out, "title: \"Joined Summary: ");
    append_str(&mut out, title.as_str());
    append_str(&mut out, "\"\n");
    append_str(
        &mut out,
        "purpose: \"\u{6c47}\u{603b}\u{591a}\u{4e2a} subagent \u{7684}\u{6700}\u{7ec8}\u{8f93}\u{51fa}\u{4e0e}\u{963b}\u{585e}\u{70b9}\"\n",
    );
    append_str(&mut out, "tags: [\"joined-summary\", \"subagents\"]\n");
    append_str(&mut out, "task_id: \"");
    append_str(&mut out, id.as_str());
    append_str(&mut out, "\"\n");
    append_str(&mut out, "generated_at: \"");
    append_str(&mut out, generated_at);
    append_str(&mut out, "\"\n");
    append_str(&mut out, "---\n\n");
    append_str(&mut out, "# Joined Summary: ");
    append_str(&mut out, task.title.as_str());
    append_str(&mut out, "\n\n");
    append_str(&mut out, "- task: `");
    append_str(&mut out, task.id.as_str());
    append_str(&mut out, "`\n");
    append_str(&mut out, "- generatedAt: `");
    append_str(&mut out, generated_at);
    append_str(&mut out, "`\n\n");
    append_str(&mut out, "## Workers\n\n");
    append_text(&mut out, &sections);
    string_of(&out)
}

/// A source of evidence as a JSON object: its kind under `type`, and its fields, of
/// which the optional ones are left out where they are missing.
pub open spec fn source_json(s: EvidenceSourceV) -> JsonV {
    match s {
        EvidenceSourceV::FileAnchor { path, start_line, end_line } => empty_object().with(
            "type"@,
            JsonV::Str("fileAnchor"@),
        ).with("path"@, JsonV::Str(path)).with("startLine"@, JsonV::Int(start_line as i64)).with(
            "endLine"@,
            JsonV::Int(end_line as i64),
        ),
        EvidenceSourceV::CommandExecution { command, cwd, exit_code, stdout_ref, stderr_ref } => {
            let base = empty_object().with("type"@, JsonV::Str("commandExecution"@)).with(
                "command"@,
                JsonV::Str(command),
            ).with("cwd"@, JsonV::Str(cwd));
            let with_code = match exit_code {
                Some(c) => base.with("exitCode"@, JsonV::Int(c as i64)),
                None => base,
            };
            let with_out = match stdout_ref {
                Some(r) => with_code.with("stdoutRef"@, JsonV::Str(r)),
                None => with_code,
            };
            match stderr_ref {
                Some(r) => with_out.with("stderrRef"@, JsonV::Str(r)),
                None => with_out,
            }
        },
        EvidenceSourceV::RuntimeEventRange { events_ref, start_line, end_line } => {
            let base = empty_object().with("type"@, JsonV::Str("runtimeEventRange"@)).with(
                "eventsRef"@,
                JsonV::Str(events_ref),
            );
            let with_start = match start_line {
                Some(n) => base.with("startLine"@, JsonV::Int(n as i64)),
                None => base,
            };
            match end_line {
                Some(n) => with_start.with("endLine"@, JsonV::Int(n as i64)),
                None => with_start,
            }
        },
    }
}

/// Writes a source of evidence as a JSON object.
pub fn encode_source(s: &EvidenceSource) -> (r: Json)
    ensures
        r@ == source_json(s@),
{
    let mut out = Json::object();
    match s {
        EvidenceSource::FileAnchor { path, start_line, end_line } => {
            out.set("type", Json::string("fileAnchor"));
            out.set("path", Json::Str(copy_string(path)));
            out.set("startLine", Json::Int(*start_line as i64));
            out.set("endLine", Json::Int(*end_line as i64));
        },
        EvidenceSource::CommandExecution { command, cwd, exit_code, stdout_ref, stderr_ref } => {
            out.set("type", Json::string("commandExecution"));
            out.set("command", Json::Str(copy_string(command)));
            out.set("cwd", Json::Str(copy_string(cwd)));
            match exit_code {
                Some(c) => {
                    out.set("exitCode", Json::Int(*c as i64));
                },
                None => {},
            }
            match stdout_ref {
                Some(r) => {
                    out.set("stdoutRef", Json::Str(copy_string(r)));
                },
                None => {},
            }
            match stderr_ref {
                Some(r) => {
                    out.set("stderrRef", Json::Str(copy_string(r)));
                },
                None => {},
            }
        },
        EvidenceSource::RuntimeEventRange { events_ref, start_line, end_line } => {
            out.set("type", Json::string("runtimeEventRange"));
            out.set("eventsRef", Json::Str(copy_string(events_ref)));
            match start_line {
                Some(n) => {
                    out.set("startLine", Json::Int(*n as i64));
                },
                None => {},
            }
            match end_line {
                Some(n) => {
                    out.set("endLine", Json::Int(*n as i64));
                },
                None => {},
            }
        },
    }
    out
}

/// An entry of the evidence index as a JSON object. The references to artifacts are
/// left out where there are none.
pub open spec fn entry_json(e: EvidenceEntryV) -> JsonV {
    let base = empty_object().with("id"@, JsonV::Str(e.id)).with("kind"@, JsonV::Str(e.kind)).with(
        "title"@,
        JsonV::Str(e.title),
    ).with("summary"@, JsonV::Str(e.summary)).with("createdAt"@, JsonV::Str(e.created_at)).with(
        "sources"@,
        JsonV::Array(Seq::new(e.sources.len(), |i: int| source_json(e.sources[i]))),
    );
    if e.artifact_refs.len() == 0 {
        base
    } else {
        base.with("artifactRefs"@, crate::json::text_array(e.artifact_refs))
    }
}

/// Writes an entry of the evidence index as a JSON object.
pub fn encode_entry(e: &EvidenceEntry) -> (r: Json)
    ensures
        r@ == entry_json(e@),
{
    let mut sources: Vec<Json> = Vec::new();
    let mut i: usize = 0;
    while i < e.sources.len()
        invariant
            i <= e.sources.len(),
            crate::json::list_view(sources@).len() == i,
            forall|j: int|
                0 <= j < i ==> #[trigger] crate::json::list_view(sources@)[j] == source_json(
                    e.sources@[j]@,
                ),
        decreases e.sources.len() - i,
    {
        let s = encode_source(&e.sources[i]);
        proof {
            crate::json::lemma_list_view_push(sources@, s);
        }
        sources.push(s);
        i += 1;
    }
    proof {
        assert(crate::json::list_view(sources@) =~= Seq::new(
            e@.sources.len(),
            |i: int| source_json(e@.sources[i]),
        ));
    }
    let mut out = Json::object();
    out.set("id", Json::Str(copy_string(&e.id)));
    out.set("kind", Json::Str(copy_string(&e.kind)));
    out.set("title", Json::Str(copy_string(&e.title)));
    out.set("summary", Json::Str(copy_string(&e.summary)));
    out.set("createdAt", Json::Str(copy_string(&e.created_at)));
    out.set("sources", Json::Array(sources));
    if e.artifact_refs.len() > 0 {
        out.set("artifactRefs", crate::json::strings_to_json(&e.artifact_refs));
    }
    out
}

/// The evidence index as a JSON array.
pub open spec fn index_json(entries: Seq<EvidenceEntryV>) -> JsonV {
    JsonV::Array(Seq::new(entries.len(), |i: int| entry_json(entries[i])))
}

/// Writes the evidence index as a JSON array.
pub fn encode_index(entries: &Vec<EvidenceEntry>) -> (r: Json)
    ensures
        r@ == index_json(views(entries@)),
{
    let mut out: Vec<Json> = Vec::new();
    let mut i: usize = 0;
    while i < entries.len()
        invariant
            i <= entries.len(),
            crate::json::list_view(out@).len() == i,
            forall|j: int|
                0 <= j < i ==> #[trigger] crate::json::list_view(out@)[j] == entry_json(
                    entries@[j]@,
                ),
        decreases entries.len() - i,
    {
        let e = encode_entry(&entries[i]);
        proof {
            crate::json::lemma_list_view_push(out@, e);
        }
        out.push(e);
        i += 1;
    }
    proof {
        assert(crate::json::list_view(out@) =~= Seq::new(
            entries@.len(),
            |i: int| entry_json(views(entries@)[i]),
        ));
    }
    Json::Array(out)
}

/// A worker as a JSON object of the joined report.
pub open spec fn worker_json(w: JoinedWorkerSummaryV) -> JsonV {
    empty_object().with("agent"@, JsonV::Str(w.agent)).with(
        "agentInstance"@,
        JsonV::Str(w.agent_instance),
    ).with("nextActions"@, crate::json::text_array(w.next_actions)).with(
        "questions"@,
        crate::json::text_array(w.questions),
    ).with("status"@, JsonV::Str(w.status)).with("summary"@, JsonV::Str(w.summary))
}

/// The joined report of a task as a JSON object.
pub open spec fn joined_json(
    task_id: Seq<char>,
    generated_at: Seq<char>,
    workers: Seq<JoinedWorkerSummaryV>,
) -> JsonV {
    empty_object().with("generatedAt"@, JsonV::Str(generated_at)).with(
        "taskId"@,
        JsonV::Str(task_id),
    ).with("workers"@, JsonV::Array(Seq::new(workers.len(), |i: int| worker_json(workers[i]))))
}

/// Writes the joined report of a task as a JSON object.
pub fn encode_joined_summary(
    task_id: &str,
    generated_at: &str,
    workers: &Vec<JoinedWorkerSummary>,
) -> (r: Json)
    ensures
        r@ == joined_json(task_id@, generated_at@, views(workers@)),
{
    let mut list: Vec<Json> = Vec::new();
    let mut i: usize = 0;
    while i < workers.len()
        invariant
            i <= workers.len(),
            crate::json::list_view(list@).len() == i,
            forall|j: int|
                0 <= j < i ==> #[trigger] crate::json::list_view(list@)[j] == worker_json(
                    workers@[j]@,
                ),
        decreases workers.len() - i,
    {
        let w = &workers[i];
        let mut o = Json::object();
        o.set("agent", Json::Str(copy_string(&w.agent)));
        o.set("agentInstance", Json::Str(copy_string(&w.agent_instance)));
        o.set("nextActions", crate::json::strings_to_json(&w.next_actions));
        o.set("questions", crate::json::strings_to_json(&w.questions));
        o.set("status", Json::Str(copy_string(&w.status)));
        o.set("summary", Json::Str(copy_string(&w.summary)));
        proof {
            crate::json::lemma_list_view_push(list@, o);
        }
        list.push(o);
        i += 1;
    }
    proof {
        assert(crate::json::list_view(list@) =~= Seq::new(
            workers@.len(),
            |i: int| worker_json(views(workers@)[i]),
        ));
    }
    let mut out = Json::object();
    out.set("generatedAt", Json::string(generated_at));
    out.set("taskId", Json::string(task_id));
    out.set("workers", Json::Array(list));
    out
}

/// The final artifact of one of the first `n` roster entries exists and is no JSON
/// document.
pub open spec fn has_broken_final(finals: Seq<Option<Seq<char>>>, n: int) -> bool {
    exists|i: int|
        0 <= i < n && i < finals.len() && (#[trigger] finals[i]) is Some && parsed_json(
            finals[i]->0,
        ) is None
}

/// The texts of the optional strings of a list.
pub open spec fn opt_views(v: Seq<Option<String>>) -> Seq<Option<Seq<char>>> {
    Seq::new(v.len(), |i: int| opt_view(v[i]))
}

/// What joining yields: the workers, and the texts of the three files to write.
#[derive(Debug, Clone, PartialEq, Eq)]
pub struct JoinReport {
    pub workers: Vec<JoinedWorkerSummary>,
    /// The content of `shared/evidence/index.json`.
    pub evidence_index: String,
    /// The content of `shared/reports/joined-summary.md`.
    pub markdown: String,
    /// The content of `shared/reports/joined-summary.json`.
    pub json: String,
    /// Where the two reports are to be written.
    pub response: JoinTaskResponse,
}

impl Orchestrator {
    /// Joins the final outputs of the agents of a reconciled task.
    ///
    /// `finals` holds, for each roster entry in order, the content of its final artifact
    /// where that file exists. A roster entry without one is reported as missing, also
    /// where `finals` is shorter than the roster. An artifact that is no JSON document makes
    /// the whole join fail with an error of JSON.
    pub fn task_join(&self, task: &TaskFile, finals: &Vec<Option<String>>, now: Timestamp) -> (r:
        Result<JoinReport, OrchestratorError>)
        ensures
            has_broken_final(opt_views(finals@), task.roster.len() as int) ==> r matches Err(
                OrchestratorError::Json(_),
            ),
            !has_broken_final(opt_views(finals@), task.roster.len() as int) ==> (r matches Ok(
                report,
            ) && {
                let docs = Seq::new(
                    task.roster.len() as nat,
                    |i: int|
                        if i < finals.len() {
                            match opt_views(finals@)[i] {
                                Some(t) => parsed_json(t),
                                None => None,
                            }
                        } else {
                            None
                        },
                );
                let workers = workers_of(task@.roster, docs, task.roster.len() as int);
                let at = rfc3339_text(now.secs, now.nanos);
                let dir = crate::paths::task_dir_of(self.store_view().root(), task.id@);
                &&& views(report.workers@) == workers
                &&& report.evidence_index@ == crate::json::pretty_json(
                    index_json(evidence_index_of(workers, at, workers.len() as int)),
                )
                &&& report.markdown@ == joined_markdown(task@, at, workers)
                &&& report.json@ == crate::json::pretty_json(joined_json(task.id@, at, workers))
                &&& report.response.joined_summary_md@ == joined(
                    joined(joined(dir, "shared"@), "reports"@),
                    "joined-summary.md"@,
                )
                &&& report.response.joined_summary_json@ == joined(
                    joined(joined(dir, "shared"@), "reports"@),
                    "joined-summary.json"@,
                )
            }),
    {
        let ghost fv = opt_views(finals@);
        let ghost docs = Seq::new(
            task.roster.len() as nat,
            |i: int|
                if i < finals.len() {
                    match fv[i] {
                        Some(t) => parsed_json(t),
                        None => None,
                    }
                } else {
                    None
                },
        );
        let mut workers: Vec<JoinedWorkerSummary> = Vec::new();
        proof {
            assert(views(workers@) =~= Seq::<JoinedWorkerSummaryV>::empty());
        }
        let mut i: usize = 0;
        while i < task.roster.len()
            invariant
                i <= task.roster.len(),
                fv == opt_views(finals@),
                docs.len() == task.roster.len(),
                forall|k: int|
                    0 <= k < docs.len() ==> #[trigger] docs[k] == if k < finals.len() {
                        match fv[k] {
                            Some(t) => parsed_json(t),
                            None => None,
                        }
                    } else {
                        None
                    },
                !has_broken_final(fv, i as int),
                views(workers@) == workers_of(task@.roster, docs, i as int),
            decreases task.roster.len() - i,
        {
            let agent = &task.roster[i];
            let doc: Option<Json> = if i < finals.len() {
                match &finals[i] {
                    Some(t) => {
                        proof {
                            assert(fv[i as int] == Some(t@));
                        }
                        match parse(t.as_str()) {
                            Some(d) => Some(d),
                            None => {
                                proof {
                                    assert(has_broken_final(fv, task.roster.len() as int));
                                }
                                return Err(
                                    OrchestratorError::Json(owned("final output is not valid JSON")),
                                );
                            },
                        }
                    },
                    None => {
                        proof {
                            assert(fv[i as int] is None);
                        }
                        None
                    },
                }
            } else {
                None
            };
            let snapshot = read_snapshot(doc.as_ref());
            let w = JoinedWorkerSummary {
                agent_instance: copy_string(&agent.instance),
                agent: copy_string(&agent.agent),
                status: snapshot.status,
                summary: snapshot.summary,
                questions: snapshot.questions,
                next_actions: snapshot.next_actions,
            };
            proof {
                assert(views(task.roster@)[i as int] == agent@);
                lemma_views_push(workers@, w);
                assert(!has_broken_final(fv, i as int + 1)) by {
                    if has_broken_final(fv, i as int + 1) {
                        let k = choose|k: int|
                            0 <= k < i + 1 && k < fv.len() && (#[trigger] fv[k]) is Some
                                && parsed_json(fv[k]->0) is None;
                        if k < i {
                            assert(has_broken_final(fv, i as int));
                        }
                    }
                }
            }
            workers.push(w);
            i += 1;
        }
        let at = format_rfc3339(now);
        let entries = evidence_index(&workers, at.as_str());
        let index = encode_index(&entries);
        let markdown = render_joined_summary_markdown(task, at.as_str(), &workers);
        let summary = encode_joined_summary(task.id.as_str(), at.as_str(), &workers);
        let dir = self.store().task_dir(task.id.as_str());
        let shared = join_path(dir.as_str(), "shared");
        let reports = join_path(shared.as_str(), "reports");
        Ok(
            JoinReport {
                workers: workers,
                evidence_index: crate::json::to_pretty_text(&index),
                markdown: markdown,
                json: crate::json::to_pretty_text(&summary),
                response: JoinTaskResponse {
                    joined_summary_md: join_path(reports.as_str(), "joined-summary.md"),
                    joined_summary_json: join_path(reports.as_str(), "joined-summary.json"),
                },
            },
        )
    }
}

} // verus!
