//! The descriptor of the session of an agent, the thread identifier that the vendor
//! tool announces, and the final output of a batch worker.

use vstd::prelude::*;
use crate::error::{CodexExecError, OrchestratorError};
use crate::json::{
    empty_object, lemma_with_keeps_others, lemma_with_then_get, parse, parsed_json, pretty_json,
    to_pretty_text, Json, JsonV,
};
use crate::reconcile::{read_string_list, string_list};
use crate::split::{lines, split_lines, texts};
use crate::text::{
    chars_of, copy_string, opt_view, owned, string_is, string_of, trim, trim_text, views,
};

verus! {

/// What is needed to start a batch worker in the directory of an agent.
#[derive(Debug, Clone, PartialEq, Eq)]
pub struct CodexExecStartRequest {
    pub agent_dir: String,
    pub cwd: String,
    pub prompt: String,
    pub output_schema_path: String,
    pub codex_bin: String,
    pub codex_home: Option<String>,
}

impl CodexExecStartRequest {
    /// A request that runs the program `codex` with its home in the directory of the
    /// agent.
    pub fn new(agent_dir: String, cwd: String, prompt: String, output_schema_path: String) -> (r:
        Self)
        ensures
            r.agent_dir@ == agent_dir@,
            r.cwd@ == cwd@,
            r.prompt@ == prompt@,
            r.output_schema_path@ == output_schema_path@,
            r.codex_bin@ == "codex"@,
            r.codex_home is None,
    {
        CodexExecStartRequest {
            agent_dir: agent_dir,
            cwd: cwd,
            prompt: prompt,
            output_schema_path: output_schema_path,
            codex_bin: owned("codex"),
            codex_home: None,
        }
    }
}

/// How the thread identifier stands in a descriptor.
#[derive(Debug, Clone, PartialEq, Eq)]
pub enum ThreadIdField {
    /// The descriptor has no such member.
    Omitted,
    /// The member is `null`.
    Null,
    /// The member is the identifier.
    Known(String),
}

/// The member `vendorSession` of a descriptor.
pub open spec fn vendor_session_json(
    thread_id: Option<JsonV>,
    forked_from: Option<Seq<char>>,
    cwd: Seq<char>,
    codex_home: Seq<char>,
) -> JsonV {
    let base = empty_object().with("tool"@, JsonV::Str("codex"@));
    let with_thread = match thread_id {
        Some(v) => base.with("threadId"@, v),
        None => base,
    };
    let with_fork = match forked_from {
        Some(f) => with_thread.with("forkedFromThreadId"@, JsonV::Str(f)),
        None => with_thread,
    };
    with_fork.with("cwd"@, JsonV::Str(cwd)).with("codexHome"@, JsonV::Str(codex_home))
}

/// The member `recording` of a descriptor: the recordings in their portable form,
/// relative to the directory of the agent.
pub open spec fn recording_json(with_requests: bool) -> JsonV {
    let base = if with_requests {
        empty_object().with("requests"@, JsonV::Str("./runtime/requests.jsonl"@))
    } else {
        empty_object()
    };
    base.with("events"@, JsonV::Str("./runtime/events.jsonl"@)).with(
        "stderr"@,
        JsonV::Str("./runtime/stderr.log"@),
    )
}

/// The descriptor of a session.
pub open spec fn descriptor_json(
    adapter: Seq<char>,
    thread_id: Option<JsonV>,
    forked_from: Option<Seq<char>>,
    cwd: Seq<char>,
    codex_home: Seq<char>,
    with_requests: bool,
) -> JsonV {
    empty_object().with("adapter"@, JsonV::Str(adapter)).with(
        "vendorSession"@,
        vendor_session_json(thread_id, forked_from, cwd, codex_home),
    ).with("recording"@, recording_json(with_requests))
}

/// The value of the member `threadId` of a descriptor, where it has one.
pub open spec fn thread_field_view(f: ThreadIdField) -> Option<JsonV> {
    match f {
        ThreadIdField::Omitted => None,
        ThreadIdField::Null => Some(JsonV::Null),
        ThreadIdField::Known(id) => Some(JsonV::Str(id@)),
    }
}

/// Builds the descriptor of a session. `codex_home` is the home of the vendor tool in
/// its portable form; the recording of requests is named for a persistent worker only.
pub fn session_descriptor(
    adapter: &str,
    thread_id: ThreadIdField,
    forked_from_thread_id: Option<&str>,
    cwd: &str,
    codex_home: &str,
    with_requests: bool,
) -> (r: Json)
    ensures
        r@ == descriptor_json(
            adapter@,
            thread_field_view(thread_id),
            match forked_from_thread_id {
                Some(f) => Some(f@),
                None => None,
            },
            cwd@,
            codex_home@,
            with_requests,
        ),
{
    let mut vendor = Json::object();
    vendor.set("tool", Json::string("codex"));
    match thread_id {
        ThreadIdField::Omitted => {},
        ThreadIdField::Null => {
            vendor.set("threadId", Json::Null);
        },
        ThreadIdField::Known(id) => {
            vendor.set("threadId", Json::Str(id));
        },
    }
    match forked_from_thread_id {
        Some(f) => {
            vendor.set("forkedFromThreadId", Json::string(f));
        },
        None => {},
    }
    vendor.set("cwd", Json::string(cwd));
    vendor.set("codexHome", Json::string(codex_home));
    let mut recording = Json::object();
    if with_requests {
        recording.set("requests", Json::string("./runtime/requests.jsonl"));
    }
    recording.set("events", Json::string("./runtime/events.jsonl"));
    recording.set("stderr", Json::string("./runtime/stderr.log"));
    let mut out = Json::object();
    out.set("adapter", Json::string(adapter));
    out.set("vendorSession", vendor);
    out.set("recording", recording);
    out
}

/// The thread identifier that an event announces: the event is of the type
/// `thread.started` and names the identifier as `thread_id` or, failing that, as
/// `threadId`.
pub open spec fn announced_thread(event: JsonV) -> Option<Seq<char>> {
    if event.text_at("type"@) == Some("thread.started"@) {
        match event.text_at("thread_id"@) {
            Some(id) => Some(id),
            None => event.text_at("threadId"@),
        }
    } else {
        None
    }
}

/// Reads the thread identifier that an event announces.
pub fn thread_id_of_event(event: &Json) -> (r: Option<String>)
    ensures
        opt_view(r) == announced_thread(event@),
{
    let started = chars_of("thread.started");
    match event.str_at("type") {
        Some(t) => {
            if !string_is(t, &started) {
                return None;
            }
        },
        None => {
            return None;
        },
    }
    match event.str_at("thread_id") {
        Some(id) => Some(copy_string(id)),
        None => match event.str_at("threadId") {
            Some(id) => Some(copy_string(id)),
            None => None,
        },
    }
}

/// The thread identifier that a line of the recording announces; none where the line is
/// no JSON document.
pub open spec fn announced_by_line(line: Seq<char>) -> Option<Seq<char>> {
    match parsed_json(line) {
        Some(doc) => announced_thread(doc),
        None => None,
    }
}

/// Reads the thread identifier that a line of the recording announces.
pub fn extract_thread_id_from_event_line(line: &str) -> (r: Option<String>)
    ensures
        opt_view(r) == announced_by_line(line@),
{
    match parse(line) {
        Some(doc) => thread_id_of_event(&doc),
        None => None,
    }
}

/// The first thread identifier that one of the lines from `from` on announces, each line
/// taken without the white space around it; blank lines announce nothing.
pub open spec fn first_announced(all: Seq<Seq<char>>, from: int) -> Option<Seq<char>>
    decreases all.len() - from,
{
    if from < 0 || from >= all.len() {
        None
    } else if trim(all[from]).len() > 0 && announced_by_line(trim(all[from])) is Some {
        announced_by_line(trim(all[from]))
    } else {
        first_announced(all, from + 1)
    }
}

/// The first thread identifier that the recording of events announces.
pub open spec fn announced_in(events: Seq<char>) -> Option<Seq<char>> {
    first_announced(lines(events), 0)
}

/// Reads the first thread identifier that the recording of events announces.
pub fn extract_thread_id_from_events(events: &str) -> (r: Option<String>)
    ensures
        opt_view(r) == announced_in(events@),
{
    let content = chars_of(events);
    let all = split_lines(&content);
    let mut i: usize = 0;
    while i < all.len()
        invariant
            i <= all.len(),
            texts(all@) == lines(events@),
            first_announced(lines(events@), 0) == first_announced(lines(events@), i as int),
        decreases all.len() - i,
    {
        proof {
            assert(texts(all@)[i as int] == all@[i as int]@);
        }
        let line = trim_text(&all[i]);
        if line.len() > 0 {
            let text = string_of(&line);
            match extract_thread_id_from_event_line(text.as_str()) {
                Some(id) => {
                    return Some(id);
                },
                None => {},
            }
        }
        i += 1;
    }
    None
}

/// The thread identifier of a worker after one more line of its output: the one it had,
/// else the one that the line announces.
pub open spec fn thread_after_line(known: Option<Seq<char>>, line: Seq<char>) -> Option<Seq<char>> {
    match known {
        Some(id) => Some(id),
        None => announced_by_line(line),
    }
}

/// Takes in one line of the output of a batch worker. Returns the thread identifier of
/// the worker after the line, and whether the line announced it first, which is when the
/// descriptor of the session is to be written again. Later announcements are ignored.
pub fn observe_thread_id(known: Option<String>, line: &str) -> (r: (Option<String>, bool))
    ensures
        opt_view(r.0) == thread_after_line(opt_view(known), line@),
        r.1 == (known is None && announced_by_line(line@) is Some),
{
    match known {
        Some(id) => (Some(id), false),
        None => match extract_thread_id_from_event_line(line) {
            Some(id) => (Some(id), true),
            None => (None, false),
        },
    }
}

/// A descriptor knows its thread: the member `threadId` of its vendor session is a
/// string.
pub open spec fn knows_thread(descriptor: JsonV) -> bool {
    match descriptor.get("vendorSession"@) {
        Some(v) => v.text_at("threadId"@) is Some,
        None => false,
    }
}

/// The descriptor with the thread identifier `id` set in its vendor session. A
/// descriptor whose vendor session is no object stays as it is.
pub open spec fn with_thread(descriptor: JsonV, id: Seq<char>) -> JsonV {
    match descriptor.get("vendorSession"@) {
        Some(v) => if v is Object {
            descriptor.with("vendorSession"@, v.with("threadId"@, JsonV::Str(id)))
        } else {
            descriptor
        },
        None => descriptor,
    }
}

/// What the repair of a descriptor comes to.
pub enum Repair {
    /// Nothing is to be written.
    Keep,
    /// The descriptor is no JSON document.
    Broken,
    /// The descriptor is to be written as this document.
    Rewrite(JsonV),
}

/// The repair of a descriptor against the recording of events: where the recording
/// announces a thread and the descriptor does not know its thread, the descriptor is
/// written again with the announced identifier.
pub open spec fn repair_of(events: Seq<char>, descriptor: Seq<char>) -> Repair {
    match announced_in(events) {
        None => Repair::Keep,
        Some(id) => match parsed_json(descriptor) {
            None => Repair::Broken,
            Some(d) => if knows_thread(d) {
                Repair::Keep
            } else {
                Repair::Rewrite(with_thread(d, id))
            },
        },
    }
}

/// Sets the thread identifier of a descriptor.
pub fn set_thread_id(descriptor: Json, id: &str) -> (r: Json)
    ensures
        r@ == with_thread(descriptor@, id@),
{
    let mut descriptor = descriptor;
    let vendor = match descriptor.get("vendorSession") {
        Some(v) => {
            if !v.is_object() {
                return descriptor;
            }
            let mut copy = v.copy();
            copy.set("threadId", Json::string(id));
            copy
        },
        None => {
            return descriptor;
        },
    };
    descriptor.set("vendorSession", vendor);
    descriptor
}

/// Repairs the descriptor of a session against the recording of the events of its
/// agent. Returns the new text of the descriptor where it is to be written again, nothing
/// where it stays, and an error of JSON where a thread is announced and the descriptor is
/// no JSON document.
pub fn maybe_update_session_thread_id(events: &str, descriptor: &str) -> (r: Result<
    Option<String>,
    OrchestratorError,
>)
    ensures
        match repair_of(events@, descriptor@) {
            Repair::Keep => r == Ok::<Option<String>, OrchestratorError>(None),
            Repair::Broken => r matches Err(OrchestratorError::Json(_)),
            Repair::Rewrite(d) => r matches Ok(Some(text)) && text@ == pretty_json(d),
        },
{
    let id = match extract_thread_id_from_events(events) {
        Some(id) => id,
        None => {
            return Ok(None);
        },
    };
    let doc = match parse(descriptor) {
        Some(d) => d,
        None => {
            return Err(OrchestratorError::Json(owned("session descriptor is not valid JSON")));
        },
    };
    let known = match doc.get("vendorSession") {
        Some(v) => v.str_at("threadId").is_some(),
        None => false,
    };
    if known {
        return Ok(None);
    }
    let next = set_thread_id(doc, id.as_str());
    Ok(Some(to_pretty_text(&next)))
}

/// A descriptor whose vendor session is an object that does not know its thread knows
/// the announced thread after the rewrite, and nothing else about it changed: every
/// other member of the descriptor and every other member of its vendor session is what it
/// was.
pub proof fn law_repair_sets_thread_only(
    descriptor: JsonV,
    id: Seq<char>,
    other: Seq<char>,
    other_in_session: Seq<char>,
)
    requires
        descriptor.get("vendorSession"@) is Some,
        descriptor.get("vendorSession"@)->0 is Object,
        other != "vendorSession"@,
        other_in_session != "threadId"@,
    ensures
        with_thread(descriptor, id).get("vendorSession"@) is Some,
        with_thread(descriptor, id).get("vendorSession"@)->0.text_at("threadId"@) == Some(id),
        with_thread(descriptor, id).get(other) == descriptor.get(other),
        with_thread(descriptor, id).get("vendorSession"@)->0.get(other_in_session)
            == descriptor.get("vendorSession"@)->0.get(other_in_session),
{
    let v = descriptor.get("vendorSession"@)->0;
    let next = v.with("threadId"@, JsonV::Str(id));
    lemma_with_then_get(v, "threadId"@, JsonV::Str(id));
    lemma_with_keeps_others(v, "threadId"@, JsonV::Str(id), other_in_session);
    lemma_with_then_get(descriptor, "vendorSession"@, next);
    lemma_with_keeps_others(descriptor, "vendorSession"@, next, other);
}

/// The status that a batch worker reports at its end.
#[derive(Debug, Clone, Copy, PartialEq, Eq, Structural)]
pub enum WorkerFinalStatus {
    Success,
    Blocked,
    Failed,
}

/// The final output of a batch worker.
#[derive(Debug, Clone, PartialEq, Eq)]
pub struct WorkerFinalOutput {
    pub status: WorkerFinalStatus,
    pub summary: String,
    pub artifacts: Option<Json>,
    pub questions: Vec<String>,
    pub next_actions: Vec<String>,
    pub errors: Vec<String>,
}

/// The status that a name stands for.
pub open spec fn final_status_named(name: Seq<char>) -> Option<WorkerFinalStatus> {
    if name == "success"@ {
        Some(WorkerFinalStatus::Success)
    } else if name == "blocked"@ {
        Some(WorkerFinalStatus::Blocked)
    } else if name == "failed"@ {
        Some(WorkerFinalStatus::Failed)
    } else {
        None
    }
}

/// The member `key` is missing, or it is an array of strings only.
pub open spec fn is_string_list(doc: JsonV, key: Seq<char>) -> bool {
    match doc.get(key) {
        None => true,
        Some(JsonV::Array(items)) => forall|i: int| 0 <= i < items.len() ==> (#[trigger] items[i]) is Str,
        Some(_) => false,
    }
}

/// The document is the final output of a worker: an object with a known status and a
/// summary, whose questions, next actions and errors are lists of strings where it has
/// them.
pub open spec fn is_final_output(doc: JsonV) -> bool {
    &&& doc is Object
    &&& doc.text_at("status"@) is Some
    &&& final_status_named(doc.text_at("status"@)->0) is Some
    &&& doc.text_at("summary"@) is Some
    &&& is_string_list(doc, "questions"@)
    &&& is_string_list(doc, "nextActions"@)
    &&& is_string_list(doc, "errors"@)
}

/// Tells whether the member `key` is missing or an array of strings only.
#[verifier::loop_isolation(false)]
pub fn check_string_list(doc: &Json, key: &str) -> (r: bool)
    ensures
        r == is_string_list(doc@, key@),
{
    match doc.get(key) {
        None => true,
        Some(v) => match v.as_array() {
            Some(items) => {
                proof {
                    crate::json::lemma_list_view(items@);
                }
                let mut i: usize = 0;
                while i < items.len()
                    invariant
                        i <= items.len(),
                        crate::json::list_view(items@).len() == items.len(),
                        forall|j: int|
                            0 <= j < items.len() ==> #[trigger] crate::json::list_view(items@)[j]
                                == items@[j]@,
                        forall|j: int|
                            0 <= j < i ==> (#[trigger] crate::json::list_view(items@)[j]) is Str,
                    decreases items.len() - i,
                {
                    if items[i].as_str().is_none() {
                        proof {
                            assert(!(crate::json::list_view(items@)[i as int] is Str));
                        }
                        return false;
                    }
                    i += 1;
                }
                true
            },
            None => false,
        },
    }
}

/// Reads the final output of a worker from a document; nothing where the document is
/// none.
pub fn decode_final_output(doc: &Json) -> (r: Option<WorkerFinalOutput>)
    ensures
        r is Some <==> is_final_output(doc@),
        r matches Some(out) ==> {
            &&& final_status_named(doc@.text_at("status"@)->0) == Some(out.status)
            &&& Some(out.summary@) == doc@.text_at("summary"@)
            &&& match out.artifacts {
                Some(a) => doc@.get("artifacts"@) == Some(a@) && !(a@ is Null),
                None => doc@.get("artifacts"@) is None || doc@.get("artifacts"@) == Some(
                    JsonV::Null,
                ),
            }
            &&& views(out.questions@) == string_list(doc@, "questions"@)
            &&& views(out.next_actions@) == string_list(doc@, "nextActions"@)
            &&& views(out.errors@) == string_list(doc@, "errors"@)
        },
{
    if !doc.is_object() {
        return None;
    }
    let status = match doc.str_at("status") {
        Some(s) => {
            let success = chars_of("success");
            let blocked = chars_of("blocked");
            let failed = chars_of("failed");
            if string_is(s, &success) {
                WorkerFinalStatus::Success
            } else if string_is(s, &blocked) {
                WorkerFinalStatus::Blocked
            } else if string_is(s, &failed) {
                WorkerFinalStatus::Failed
            } else {
                return None;
            }
        },
        None => {
            return None;
        },
    };
    let summary = match doc.str_at("summary") {
        Some(s) => copy_string(s),
        None => {
            return None;
        },
    };
    if !check_string_list(doc, "questions") || !check_string_list(doc, "nextActions")
        || !check_string_list(doc, "errors") {
        return None;
    }
    let artifacts = match doc.get("artifacts") {
        Some(a) => match a {
            Json::Null => None,
            _ => Some(a.copy()),
        },
        None => None,
    };
    Some(
        WorkerFinalOutput {
            status: status,
            summary: summary,
            artifacts: artifacts,
            questions: read_string_list(doc, "questions"),
            next_actions: read_string_list(doc, "nextActions"),
            errors: read_string_list(doc, "errors"),
        },
    )
}

/// What a batch worker left behind.
#[derive(Debug, Clone, PartialEq, Eq)]
pub struct CodexExecWorkerResult {
    pub thread_id: Option<String>,
    pub exit_code: Option<i32>,
    pub final_output: WorkerFinalOutput,
}

/// Puts together what a batch worker left behind, once its process and its recordings
/// have ended. A missing final artifact is a `MissingFinalOutput` that names its path,
/// whatever the exit code; an artifact that is no final output is an error of JSON.
pub fn finish_worker(
    exit_code: Option<i32>,
    thread_id: Option<String>,
    final_text: Option<&str>,
    final_path: &str,
) -> (r: Result<CodexExecWorkerResult, CodexExecError>)
    ensures
        match final_text {
            None => r matches Err(CodexExecError::MissingFinalOutput { path }) && path@
                == final_path@,
            Some(t) => match parsed_json(t@) {
                Some(doc) => if is_final_output(doc) {
                    r matches Ok(res) && res.exit_code == exit_code && opt_view(res.thread_id)
                        == opt_view(thread_id) && final_status_named(doc.text_at("status"@)->0)
                        == Some(res.final_output.status) && Some(res.final_output.summary@)
                        == doc.text_at("summary"@)
                } else {
                    r matches Err(CodexExecError::Json(_))
                },
                None => r matches Err(CodexExecError::Json(_)),
            },
        },
{
    let text = match final_text {
        Some(t) => t,
        None => {
            return Err(CodexExecError::MissingFinalOutput { path: owned(final_path) });
        },
    };
    let doc = match parse(text) {
        Some(d) => d,
        None => {
            return Err(CodexExecError::Json(owned("final output is not valid JSON")));
        },
    };
    match decode_final_output(&doc) {
        Some(out) => Ok(
            CodexExecWorkerResult { thread_id: thread_id, exit_code: exit_code, final_output: out },
        ),
        None => Err(CodexExecError::Json(owned("final output does not follow the schema"))),
    }
}

} // verus!
