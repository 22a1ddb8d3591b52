//! The session with a persistent worker: newline-delimited JSON-RPC over the standard
//! streams of a child process.
//!
//! The caller owns the process, its streams and the table of pending requests; the
//! frames that go out and what an inbound frame means are decided here.

use vstd::prelude::*;
use crate::error::CodexAppServerError;
use crate::json::{
    compact_json, empty_object, lemma_members_view, members_view, parse_or_error, parsed_json,
    to_text, Json, JsonV,
};
use crate::number::{parse_i64, parsed_i64};
use crate::text::{
    append_str, chars_of, copy_string, is_blank_text, owned, string_of, trim, trim_text, views,
};

verus! {

/// What is needed to start a persistent worker in the directory of an agent.
#[derive(Debug, Clone, PartialEq, Eq)]
pub struct CodexAppServerSpawnRequest {
    pub agent_dir: String,
    pub cwd: String,
    /// The program to start.
    pub codex_bin: String,
    /// The arguments of the program.
    pub codex_args: Vec<String>,
    /// The home of the vendor tool; `codex_home` in the directory of the agent where it
    /// is missing.
    pub codex_home: Option<String>,
    /// The time that a request may take, in seconds.
    pub request_timeout_secs: u64,
}

/// The time that a request may take where nothing else is said, in seconds.
pub const DEFAULT_REQUEST_TIMEOUT_SECS: u64 = 30;

impl CodexAppServerSpawnRequest {
    /// A request that runs `codex app-server` with its home in the directory of the
    /// agent and gives every request 30 seconds.
    pub fn new(agent_dir: String, cwd: String) -> (r: Self)
        ensures
            r.agent_dir@ == agent_dir@,
            r.cwd@ == cwd@,
            r.codex_bin@ == "codex"@,
            views(r.codex_args@) == seq!["app-server"@],
            r.codex_home is None,
            r.request_timeout_secs == 30,
    {
        let mut args: Vec<String> = Vec::new();
        args.push(owned("app-server"));
        proof {
            assert(views(args@) =~= seq!["app-server"@]);
        }
        CodexAppServerSpawnRequest {
            agent_dir: agent_dir,
            cwd: cwd,
            codex_bin: owned("codex"),
            codex_args: args,
            codex_home: None,
            request_timeout_secs: DEFAULT_REQUEST_TIMEOUT_SECS,
        }
    }
}

/// The arguments of a persistent worker: the profile, where one is given that is not
/// blank, and the name of the mode.
pub open spec fn persistent_arguments_of(profile: Option<Seq<char>>) -> Seq<Seq<char>> {
    match profile {
        Some(p) => if trim(p).len() == 0 {
            seq!["app-server"@]
        } else {
            seq!["-c"@, "profile="@ + p, "app-server"@]
        },
        None => seq!["app-server"@],
    }
}

/// Builds the arguments of a persistent worker.
pub fn persistent_arguments(profile: Option<&str>) -> (out: Vec<String>)
    ensures
        views(out@) == persistent_arguments_of(
            match profile {
                Some(p) => Some(p@),
                None => None,
            },
        ),
{
    let mut out: Vec<String> = Vec::new();
    match profile {
        Some(p) => {
            let v = chars_of(p);
            if !is_blank_text(&v) {
                out.push(owned("-c"));
                let mut arg = chars_of("profile=");
                append_str(&mut arg, p);
                out.push(string_of(&arg));
            }
        },
        None => {},
    }
    out.push(owned("app-server"));
    proof {
        assert(views(out@) =~= persistent_arguments_of(
            match profile {
                Some(p) => Some(p@),
                None => None,
            },
        ));
    }
    out
}

/// The identifiers of the requests of one session.
#[derive(Debug, Clone, Copy, PartialEq, Eq, Structural)]
pub struct RequestIds {
    next: i64,
}

/// The identifier of the request number `k` of a session, counted from 0: the first is
/// -1, and each one is one less than the one before it.
pub open spec fn nth_request_id(k: nat) -> int {
    -1 - k
}

impl RequestIds {
    /// How many identifiers were handed out, the least one counted once.
    pub closed spec fn issued(self) -> nat {
        (-1 - self.next) as nat
    }

    /// No identifier is left but the least one, `i64::MIN`: all the others were handed
    /// out.
    pub open spec fn exhausted(self) -> bool {
        self.issued() >= i64::MAX
    }

    /// The counter holds a negative identifier.
    pub closed spec fn wf(self) -> bool {
        self.next <= -1
    }

    /// The counter of a new session.
    pub fn new() -> (r: Self)
        ensures
            r.wf(),
            r.issued() == 0,
    {
        RequestIds { next: -1 }
    }

    /// Hands out the next identifier: the request number `k` of a session, counted from
    /// 0, gets the identifier `-1 - k`. The identifiers of a session are negative, so that
    /// they cannot meet an identifier that the peer chose. After the least identifier was
    /// handed out the counter stays at it.
    pub fn allocate(&mut self) -> (id: i64)
        requires
            old(self).wf(),
        ensures
            final(self).wf(),
            old(self).issued() <= i64::MAX,
            id == nth_request_id(old(self).issued()),
            !old(self).exhausted() ==> final(self).issued() == old(self).issued() + 1,
            old(self).exhausted() ==> *final(self) == *old(self),
    {
        let id = self.next;
        if self.next > i64::MIN {
            self.next = self.next - 1;
        }
        id
    }
}

/// The identifiers of the requests of a session are negative, strictly decreasing and
/// therefore unique: a later request has a lesser identifier than an earlier one.
pub proof fn law_request_ids_decrease(earlier: nat, later: nat)
    requires
        earlier < later,
    ensures
        nth_request_id(later) < nth_request_id(earlier) < 0,
        nth_request_id(later) != nth_request_id(earlier),
{
}

/// The frame of a request: its identifier, its method, and its parameters where it has
/// any.
pub open spec fn request_json(id: i64, method: Seq<char>, params: Option<JsonV>) -> JsonV {
    let base = empty_object().with("id"@, JsonV::Int(id)).with("method"@, JsonV::Str(method));
    match params {
        Some(p) => base.with("params"@, p),
        None => base,
    }
}

/// The frame of a notification: its method, and its parameters where it has any.
pub open spec fn notification_json(method: Seq<char>, params: Option<JsonV>) -> JsonV {
    let base = empty_object().with("method"@, JsonV::Str(method));
    match params {
        Some(p) => base.with("params"@, p),
        None => base,
    }
}

/// The frame of an answer to a request of the peer: the identifier of that request and
/// the result.
pub open spec fn response_json(id: i64, result: JsonV) -> JsonV {
    empty_object().with("id"@, JsonV::Int(id)).with("result"@, result)
}

/// The view of an optional document.
pub open spec fn opt_json_view(o: Option<Json>) -> Option<JsonV> {
    match o {
        Some(j) => Some(j@),
        None => None,
    }
}

/// Builds the frame of a request.
pub fn request_frame(id: i64, method: &str, params: Option<Json>) -> (r: Json)
    ensures
        r@ == request_json(id, method@, opt_json_view(params)),
{
    let mut out = Json::object();
    out.set("id", Json::Int(id));
    out.set("method", Json::string(method));
    match params {
        Some(p) => {
            out.set("params", p);
        },
        None => {},
    }
    out
}

/// Builds the frame of a notification.
pub fn notification_frame(method: &str, params: Option<Json>) -> (r: Json)
    ensures
        r@ == notification_json(method@, opt_json_view(params)),
{
    let mut out = Json::object();
    out.set("method", Json::string(method));
    match params {
        Some(p) => {
            out.set("params", p);
        },
        None => {},
    }
    out
}

/// Builds the frame of an answer to a request of the peer.
pub fn response_frame(request_id: i64, result: Json) -> (r: Json)
    ensures
        r@ == response_json(request_id, result@),
{
    let mut out = Json::object();
    out.set("id", Json::Int(request_id));
    out.set("result", result);
    out
}

/// Writes a frame as one line: the compact text of the document and a line feed.
pub fn frame_line(frame: &Json) -> (r: String)
    ensures
        r@ == compact_json(frame@).push('\n'),
{
    let text = to_text(frame);
    let mut out = chars_of(text.as_str());
    out.push('\n');
    string_of(&out)
}

/// The identifier that a value stands for: a number that fits a signed 64-bit integer,
/// or a string that writes one.
pub open spec fn id_of(value: JsonV) -> Option<int> {
    match value {
        JsonV::Int(n) => Some(n as int),
        JsonV::Str(s) => parsed_i64(s),
        _ => None,
    }
}

/// Reads the identifier that a value stands for.
pub fn as_i64(value: &Json) -> (r: Option<i64>)
    ensures
        match r {
            Some(n) => id_of(value@) == Some(n as int),
            None => id_of(value@) is None,
        },
{
    match value {
        Json::Int(n) => Some(*n),
        Json::Str(s) => {
            let v = chars_of(s.as_str());
            parse_i64(&v)
        },
        _ => None,
    }
}

/// An inbound frame, or another thing that a session tells its listeners.
#[derive(Debug, Clone, PartialEq, Eq)]
pub struct CodexJsonRpcEvent {
    pub kind: String,
    pub message: Json,
}

/// What an answer of the peer says to the request that waits for it.
pub enum ReplyV {
    /// The request went well, with this result.
    Result(JsonV),
    /// The request failed, with this message.
    Failure(Seq<char>),
}

/// What an inbound frame means.
pub struct InboundV {
    /// The kind under which the frame is told to the listeners.
    pub kind: Seq<char>,
    /// The request that the frame answers, and the answer.
    pub reply: Option<(int, ReplyV)>,
}

/// The message of an error of the peer; `unknown error` where it names none.
pub open spec fn error_message(doc: JsonV) -> Seq<char> {
    match doc.get("error"@) {
        Some(e) => match e.text_at("message"@) {
            Some(m) => m,
            None => "unknown error"@,
        },
        None => "unknown error"@,
    }
}

/// The identifier of an inbound frame, where it has one that stands for a number.
pub open spec fn frame_id(doc: JsonV) -> Option<int> {
    match doc.get("id"@) {
        Some(v) => id_of(v),
        None => None,
    }
}

/// What an inbound frame means, by its shape. A frame with a result is a response, and
/// resolves the request of its identifier with the result. Else a frame with an error is
/// an error, and resolves the request of its identifier with the message of the error.
/// Else a frame with a method is a request of the peer where it has an identifier, and a
/// notification where it has none. Any other frame is unknown.
pub open spec fn inbound_of(doc: JsonV) -> InboundV {
    if doc.get("result"@) is Some {
        InboundV {
            kind: "response"@,
            reply: match frame_id(doc) {
                Some(id) => Some((id, ReplyV::Result(doc.get("result"@)->0))),
                None => None,
            },
        }
    } else if doc.get("error"@) is Some {
        InboundV {
            kind: "error"@,
            reply: match frame_id(doc) {
                Some(id) => Some((id, ReplyV::Failure(error_message(doc)))),
                None => None,
            },
        }
    } else if doc.get("method"@) is Some && doc.get("id"@) is Some {
        InboundV { kind: "request"@, reply: None }
    } else if doc.get("method"@) is Some {
        InboundV { kind: "notification"@, reply: None }
    } else {
        InboundV { kind: "unknown"@, reply: None }
    }
}

/// What an answer of the peer says to the request that waits for it.
#[derive(Debug, Clone, PartialEq, Eq)]
pub enum Reply {
    Result(Json),
    Failure(String),
}

/// What the caller does with an inbound frame: it resolves the pending request named by
/// `reply`, where there is one, and tells the event to the listeners.
#[derive(Debug, Clone, PartialEq, Eq)]
pub struct Inbound {
    pub reply: Option<(i64, Reply)>,
    pub event: CodexJsonRpcEvent,
}

/// The view of a reply.
pub open spec fn reply_view(r: Option<(i64, Reply)>) -> Option<(int, ReplyV)> {
    match r {
        Some((id, Reply::Result(v))) => Some((id as int, ReplyV::Result(v@))),
        Some((id, Reply::Failure(m))) => Some((id as int, ReplyV::Failure(m@))),
        None => None,
    }
}

/// Decides what an inbound frame means.
pub fn classify_inbound(doc: Json) -> (r: Inbound)
    ensures
        r.event.message@ == doc@,
        r.event.kind@ == inbound_of(doc@).kind,
        reply_view(r.reply) == inbound_of(doc@).reply,
{
    let id = match doc.get("id") {
        Some(v) => as_i64(v),
        None => None,
    };
    if let Some(result) = doc.get("result") {
        let reply = match id {
            Some(n) => Some((n, Reply::Result(result.copy()))),
            None => None,
        };
        return Inbound {
            reply: reply,
            event: CodexJsonRpcEvent { kind: owned("response"), message: doc },
        };
    }
    if let Some(error) = doc.get("error") {
        let reply = match id {
            Some(n) => {
                let message = match error.str_at("message") {
                    Some(m) => copy_string(m),
                    None => owned("unknown error"),
                };
                Some((n, Reply::Failure(message)))
            },
            None => None,
        };
        return Inbound {
            reply: reply,
            event: CodexJsonRpcEvent { kind: owned("error"), message: doc },
        };
    }
    let has_method = doc.get("method").is_some();
    let has_id = doc.get("id").is_some();
    let kind = if has_method && has_id {
        "request"
    } else if has_method {
        "notification"
    } else {
        "unknown"
    };
    Inbound { reply: None, event: CodexJsonRpcEvent { kind: owned(kind), message: doc } }
}

/// What a line that the peer wrote means.
pub enum LineMeaning {
    /// The line is blank.
    Nothing,
    /// The line is no JSON document.
    ParseError,
    /// The line is a frame.
    Frame(InboundV, JsonV),
}

/// What a line that the peer wrote means: the line is taken without the white space
/// around it; a blank line means nothing, a line that is no JSON document is told as a
/// parse error, and any other line is a frame.
pub open spec fn line_meaning(line: Seq<char>) -> LineMeaning {
    if trim(line).len() == 0 {
        LineMeaning::Nothing
    } else {
        match parsed_json(trim(line)) {
            Some(doc) => LineMeaning::Frame(inbound_of(doc), doc),
            None => LineMeaning::ParseError,
        }
    }
}

/// Decides what a line that the peer wrote means. Returns the trimmed line, which is
/// what the recording of events gets, and what to do with it; nothing for a blank line.
/// The event of a line that is no JSON document is of the kind `parse_error`, and its
/// message holds the line as `line`.
pub fn read_line(line: &str) -> (r: Option<(String, Inbound)>)
    ensures
        match line_meaning(line@) {
            LineMeaning::Nothing => r is None,
            LineMeaning::ParseError => r matches Some((recorded, inbound)) && recorded@ == trim(
                line@,
            ) && inbound.reply is None && inbound.event.kind@ == "parse_error"@
                && inbound.event.message@.text_at("line"@) == Some(trim(line@)),
            LineMeaning::Frame(meaning, doc) => r matches Some((recorded, inbound)) && recorded@
                == trim(line@) && inbound.event.message@ == doc && inbound.event.kind@
                == meaning.kind && reply_view(inbound.reply) == meaning.reply,
        },
{
    let v = chars_of(line);
    let t = trim_text(&v);
    if t.len() == 0 {
        return None;
    }
    let text = string_of(&t);
    match parse_or_error(text.as_str()) {
        Ok(doc) => Some((text, classify_inbound(doc))),
        Err(e) => {
            let mut message = Json::object();
            message.set("error", Json::Str(e));
            message.set("line", Json::Str(copy_string(&text)));
            proof {
                let first = empty_object().with("error"@, JsonV::Str(e@));
                crate::json::lemma_with_then_get(first, "line"@, JsonV::Str(text@));
            }
            Some(
                (
                    text,
                    Inbound {
                        reply: None,
                        event: CodexJsonRpcEvent { kind: owned("parse_error"), message: message },
                    },
                ),
            )
        },
    }
}

/// The event that tells a line of the error stream of the peer; nothing for a blank
/// line.
pub fn stderr_event(line: &str) -> (r: Option<CodexJsonRpcEvent>)
    ensures
        trim(line@).len() == 0 ==> r is None,
        trim(line@).len() > 0 ==> (r matches Some(e) && e.kind@ == "stderr"@ && e.message@
            == empty_object().with("line"@, JsonV::Str(trim(line@)))),
{
    let v = chars_of(line);
    let t = trim_text(&v);
    if t.len() == 0 {
        return None;
    }
    let mut message = Json::object();
    message.set("line", Json::Str(string_of(&t)));
    Some(CodexJsonRpcEvent { kind: owned("stderr"), message: message })
}

/// What became of a request.
#[derive(Debug, Clone, PartialEq, Eq)]
pub enum RequestOutcome {
    /// The peer answered.
    Answered(Reply),
    /// The time of the request ran out.
    TimedOut,
    /// The session ended before an answer came.
    Closed,
}

/// Turns what became of a request into its result: an answer with a result is the
/// result, and every other outcome is the error of its kind, which names the method.
pub fn request_result(method: &str, timeout_secs: u64, outcome: RequestOutcome) -> (r: Result<
    Json,
    CodexAppServerError,
>)
    ensures
        match outcome {
            RequestOutcome::Answered(Reply::Result(v)) => r matches Ok(got) && got@ == v@,
            RequestOutcome::Answered(Reply::Failure(m)) => r matches Err(
                CodexAppServerError::ServerError { method: at, message },
            ) && at@ == method@ && message@ == m@,
            RequestOutcome::TimedOut => r matches Err(
                CodexAppServerError::RequestTimeout { method: at, timeout_secs: secs },
            ) && at@ == method@ && secs == timeout_secs,
            RequestOutcome::Closed => r matches Err(
                CodexAppServerError::ResponseChannelClosed { method: at },
            ) && at@ == method@,
        },
{
    match outcome {
        RequestOutcome::Answered(Reply::Result(v)) => Ok(v),
        RequestOutcome::Answered(Reply::Failure(m)) => Err(
            CodexAppServerError::ServerError { method: owned(method), message: m },
        ),
        RequestOutcome::TimedOut => Err(
            CodexAppServerError::RequestTimeout { method: owned(method), timeout_secs: timeout_secs },
        ),
        RequestOutcome::Closed => Err(
            CodexAppServerError::ResponseChannelClosed { method: owned(method) },
        ),
    }
}

/// The identifier of the thread that a result names: the string `id` of its member
/// `thread`.
pub open spec fn thread_of_result(result: JsonV) -> Option<Seq<char>> {
    match result.get("thread"@) {
        Some(t) => t.text_at("id"@),
        None => None,
    }
}

/// Reads the identifier of the thread that a result names.
pub fn extract_thread_id_from_thread_result(result: &Json) -> (r: Result<
    String,
    CodexAppServerError,
>)
    ensures
        match thread_of_result(result@) {
            Some(id) => r matches Ok(got) && got@ == id,
            None => r == Err::<String, CodexAppServerError>(CodexAppServerError::MissingThreadId),
        },
{
    match result.get("thread") {
        Some(t) => match t.str_at("id") {
            Some(id) => Ok(copy_string(id)),
            None => Err(CodexAppServerError::MissingThreadId),
        },
        None => Err(CodexAppServerError::MissingThreadId),
    }
}

/// The thread that a session is on after it resumed `thread_id`: the one that the result
/// names, else the one that was asked for.
pub fn resumed_thread_id(result: &Json, thread_id: &str) -> (r: String)
    ensures
        r@ == match thread_of_result(result@) {
            Some(id) => id,
            None => thread_id@,
        },
{
    match extract_thread_id_from_thread_result(result) {
        Ok(id) => id,
        Err(_) => owned(thread_id),
    }
}

/// The object `target` with the first `n` members of `overlay` set in it, in order.
pub open spec fn merged_members(
    target: JsonV,
    overlay: Seq<(Seq<char>, JsonV)>,
    n: int,
) -> JsonV
    decreases n,
{
    if n <= 0 || n > overlay.len() {
        target
    } else {
        merged_members(target, overlay, n - 1).with(overlay[n - 1].0, overlay[n - 1].1)
    }
}

/// The object `target` with every member of the object `overlay` set in it. Where
/// either of them is no object, `target` stays as it is.
pub open spec fn merged(target: JsonV, overlay: JsonV) -> JsonV {
    match (target, overlay) {
        (JsonV::Object(_), JsonV::Object(members)) => merged_members(
            target,
            members,
            members.len() as int,
        ),
        _ => target,
    }
}

/// Sets every member of `overlay` in `target`.
pub fn merge_json_objects(target: &mut Json, overlay: Json)
    ensures
        final(target)@ == merged(old(target)@, overlay@),
{
    if !target.is_object() {
        return ;
    }
    match overlay {
        Json::Object(members) => {
            proof {
                lemma_members_view(members@);
            }
            let mut i: usize = 0;
            while i < members.len()
                invariant
                    i <= members.len(),
                    members_view(members@).len() == members.len(),
                    forall|j: int|
                        0 <= j < members.len() ==> #[trigger] members_view(members@)[j] == (
                            members@[j].0@,
                            members@[j].1@,
                        ),
                    target@ == merged_members(old(target)@, members_view(members@), i as int),
                decreases members.len() - i,
            {
                let value = members[i].1.copy();
                proof {
                    assert(members_view(members@)[i as int].0 == members@[i as int].0@);
                }
                target.set(members[i].0.as_str(), value);
                i += 1;
            }
        },
        _ => {},
    }
}

/// The parameters of a request that names a thread, with the overrides of the caller
/// set in them.
pub open spec fn thread_params_json(thread_id: Seq<char>, overrides: Option<JsonV>) -> JsonV {
    let base = empty_object().with("threadId"@, JsonV::Str(thread_id));
    match overrides {
        Some(o) => merged(base, o),
        None => base,
    }
}

/// Builds the parameters of a request that names a thread.
pub fn thread_params(thread_id: &str, params_overrides: Option<Json>) -> (r: Json)
    ensures
        r@ == thread_params_json(thread_id@, opt_json_view(params_overrides)),
{
    let mut params = Json::object();
    params.set("threadId", Json::string(thread_id));
    match params_overrides {
        Some(o) => {
            merge_json_objects(&mut params, o);
        },
        None => {},
    }
    params
}

/// Builds the parameters of the request that rolls a thread back by some turns.
pub fn rollback_params(thread_id: &str, num_turns: u32) -> (r: Json)
    ensures
        r@ == empty_object().with("numTurns"@, JsonV::Int(num_turns as i64)).with(
            "threadId"@,
            JsonV::Str(thread_id@),
        ),
{
    let mut params = Json::object();
    params.set("numTurns", Json::Int(num_turns as i64));
    params.set("threadId", Json::string(thread_id));
    params
}

/// Builds the parameters of the request that opens a session: the name, the title and
/// the version of the client.
pub fn initialize_params(title: &str, version: &str) -> (r: Json)
    ensures
        r@ == empty_object().with(
            "clientInfo"@,
            empty_object().with("name"@, JsonV::Str("codex_cli_rs"@)).with(
                "title"@,
                JsonV::Str(title@),
            ).with("version"@, JsonV::Str(version@)),
        ),
{
    let mut info = Json::object();
    info.set("name", Json::string("codex_cli_rs"));
    info.set("title", Json::string(title));
    info.set("version", Json::string(version));
    let mut params = Json::object();
    params.set("clientInfo", info);
    params
}

} // verus!
