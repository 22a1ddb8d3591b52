//! One turn of a persistent worker on behalf of a subtask: what the worker is asked,
//! what its events mean for the turn, and the final artifact that the turn leaves.

use vstd::prelude::*;
use crate::error::OrchestratorError;
use crate::json::{empty_object, parse, parsed_json, text_array, Json, JsonV};
use crate::rpc::CodexJsonRpcEvent;
use crate::text::{
    append_str, chars_of, copy_string, find_char_from, index_of_char, last_index_of_char, opt_view,
    owned, rfind_char, string_is, string_of, sub_text, trim, trim_text, views,
};

verus! {

/// The JSON text within a message: the trimmed message where it begins with `{` and ends
/// with `}`; else what stands from its first `{` through its last `}`, where the last
/// `}` comes after the first `{`; else nothing.
pub open spec fn json_within(text: Seq<char>) -> Option<Seq<char>> {
    let t = trim(text);
    if t.len() > 0 && t[0] == '{' && t.last() == '}' {
        Some(t)
    } else {
        let start = index_of_char(t, '{', 0);
        match last_index_of_char(t, '}', t.len() as int) {
            Some(end) => if start < t.len() && end > start {
                Some(t.subrange(start, end + 1))
            } else {
                None
            },
            None => None,
        }
    }
}

/// Finds the JSON text within a message.
pub fn extract_json_from_text(text: &str) -> (r: Option<String>)
    ensures
        opt_view(r) == json_within(text@),
{
    let v = chars_of(text);
    let t = trim_text(&v);
    if t.len() > 0 && t[0] == '{' && t[t.len() - 1] == '}' {
        return Some(string_of(&t));
    }
    let start = find_char_from(&t, '{', 0);
    if start >= t.len() {
        return None;
    }
    match rfind_char(&t, '}') {
        Some(end) => {
            if end <= start {
                return None;
            }
            let part = sub_text(&t, start, end + 1);
            Some(string_of(&part))
        },
        None => None,
    }
}

/// What a worker is asked: the contract for its output, an empty line, the prompt of the
/// subtask and a line feed.
pub open spec fn wrapped_prompt_text(prompt: Seq<char>) -> Seq<char> {
    "# Output Contract\nReturn ONLY valid JSON matching schemas/worker-output.schema.json.\nRequired keys: status, summary. Optional: questions, nextActions, errors.\n"@
        + "\n\n"@ + prompt + "\n"@
}

/// Wraps the prompt of a subtask in the contract for the output.
pub fn wrapped_prompt(prompt: &str) -> (r: String)
    ensures
        r@ == wrapped_prompt_text(prompt@),
{
    let mut out = chars_of(
        "# Output Contract\nReturn ONLY valid JSON matching schemas/worker-output.schema.json.\nRequired keys: status, summary. Optional: questions, nextActions, errors.\n",
    );
    append_str(&mut out, "\n\n");
    append_str(&mut out, prompt);
    append_str(&mut out, "\n");
    string_of(&out)
}

/// The parameters of the request that starts a turn: the thread, and the wrapped prompt
/// as one input of text.
pub open spec fn turn_start_json(thread_id: Seq<char>, prompt: Seq<char>) -> JsonV {
    empty_object().with(
        "input"@,
        JsonV::Array(
            seq![
                empty_object().with("text"@, JsonV::Str(wrapped_prompt_text(prompt))).with(
                    "type"@,
                    JsonV::Str("text"@),
                ),
            ],
        ),
    ).with("threadId"@, JsonV::Str(thread_id))
}

/// Builds the parameters of the request that starts a turn.
pub fn turn_start_params(thread_id: &str, prompt: &str) -> (r: Json)
    ensures
        r@ == turn_start_json(thread_id@, prompt@),
{
    let mut item = Json::object();
    item.set("text", Json::Str(wrapped_prompt(prompt)));
    item.set("type", Json::string("text"));
    let mut input: Vec<Json> = Vec::new();
    proof {
        crate::json::lemma_list_view_push(input@, item);
        assert(crate::json::list_view(input@) =~= Seq::<JsonV>::empty());
    }
    input.push(item);
    proof {
        assert(crate::json::list_view(input@) =~= seq![item@]);
    }
    let mut out = Json::object();
    out.set("input", Json::Array(input));
    out.set("threadId", Json::string(thread_id));
    out
}

/// How the thread of a turn comes about.
#[derive(Debug, Clone, PartialEq, Eq)]
pub enum ThreadPlan {
    /// A new thread is started.
    Start,
    /// The named thread is forked.
    Fork(String),
}

/// Decides how the thread of a turn comes about, from the mode of the subtask: `fork`
/// forks the thread that the subtask names, and is an error where it names none; any
/// other mode, and no mode, starts a new thread.
pub fn thread_plan(mode: &Option<String>, forked_from_thread_id: &Option<String>) -> (r: Result<
    ThreadPlan,
    OrchestratorError,
>)
    ensures
        match opt_view(*mode) {
            Some(m) => if m == "fork"@ {
                match forked_from_thread_id {
                    Some(parent) => r matches Ok(ThreadPlan::Fork(p)) && p@ == parent@,
                    None => r matches Err(OrchestratorError::Io(_)),
                }
            } else {
                r == Ok::<ThreadPlan, OrchestratorError>(ThreadPlan::Start)
            },
            None => r == Ok::<ThreadPlan, OrchestratorError>(ThreadPlan::Start),
        },
{
    let fork = chars_of("fork");
    let is_fork = match mode {
        Some(m) => string_is(m, &fork),
        None => false,
    };
    if !is_fork {
        return Ok(ThreadPlan::Start);
    }
    match forked_from_thread_id {
        Some(parent) => Ok(ThreadPlan::Fork(copy_string(parent))),
        None => Err(OrchestratorError::Io(owned("mode=fork requires forkedFromThreadId"))),
    }
}

/// What a turn has seen so far.
#[derive(Debug, Clone, PartialEq, Eq)]
pub struct TurnState {
    /// The text of the last message of the agent.
    pub last_agent_message: Option<String>,
    /// Why the turn is blocked.
    pub blocked_reason: Option<String>,
    /// The peer said that the turn is complete.
    pub completed: bool,
}

/// The view of a [`TurnState`].
pub struct TurnStateV {
    pub last_agent_message: Option<Seq<char>>,
    pub blocked_reason: Option<Seq<char>>,
    pub completed: bool,
}

impl View for TurnState {
    type V = TurnStateV;

    open spec fn view(&self) -> TurnStateV {
        TurnStateV {
            last_agent_message: opt_view(self.last_agent_message),
            blocked_reason: opt_view(self.blocked_reason),
            completed: self.completed,
        }
    }
}

impl TurnStateV {
    /// The turn is over: it is complete or blocked.
    pub open spec fn is_over(self) -> bool {
        self.completed || self.blocked_reason is Some
    }
}

/// The text of the message of the agent that a notification completes.
pub open spec fn completed_agent_message(message: JsonV) -> Option<Seq<char>> {
    match message.get("params"@) {
        Some(params) => match params.get("item"@) {
            Some(item) => if item.text_at("type"@) == Some("agentMessage"@) {
                item.text_at("text"@)
            } else {
                None
            },
            None => None,
        },
        None => None,
    }
}

/// The method of a frame; the empty text where it names none.
pub open spec fn method_of(message: JsonV) -> Seq<char> {
    match message.text_at("method"@) {
        Some(m) => m,
        None => ""@,
    }
}

/// The turn after an event. A request of the peer blocks the turn, for the reason that
/// names its method. A notification that completes a message of the agent is remembered;
/// one that completes the turn ends it; one that tells an error blocks it. Any other
/// event changes nothing.
pub open spec fn turn_after(state: TurnStateV, kind: Seq<char>, message: JsonV) -> TurnStateV {
    if kind == "request"@ {
        TurnStateV { blocked_reason: Some("approval request: "@ + method_of(message)), ..state }
    } else if kind == "notification"@ {
        let method = method_of(message);
        let seen = if method == "item/completed"@ && completed_agent_message(message) is Some {
            TurnStateV { last_agent_message: completed_agent_message(message), ..state }
        } else {
            state
        };
        if method == "turn/completed"@ {
            TurnStateV { completed: true, ..seen }
        } else if method == "error"@ {
            TurnStateV { blocked_reason: Some("app-server error"@), ..seen }
        } else {
            seen
        }
    } else {
        state
    }
}

impl TurnState {
    /// The state in which a turn begins.
    pub fn new() -> (r: Self)
        ensures
            r@ == (TurnStateV { last_agent_message: None, blocked_reason: None, completed: false }),
    {
        TurnState { last_agent_message: None, blocked_reason: None, completed: false }
    }

    /// Tells whether the turn is over.
    pub fn is_over(&self) -> (r: bool)
        ensures
            r == self@.is_over(),
    {
        self.completed || self.blocked_reason.is_some()
    }

    /// Takes in an event of the session.
    pub fn step(self, event: &CodexJsonRpcEvent) -> (r: Self)
        ensures
            r@ == turn_after(self@, event.kind@, event.message@),
    {
        let mut state = self;
        let request = chars_of("request");
        let notification = chars_of("notification");
        let method: Vec<char> = match event.message.str_at("method") {
            Some(m) => chars_of(m.as_str()),
            None => chars_of(""),
        };
        if string_is(&event.kind, &request) {
            let mut reason = chars_of("approval request: ");
            crate::text::append_text(&mut reason, &method);
            state.blocked_reason = Some(string_of(&reason));
            return state;
        }
        if !string_is(&event.kind, &notification) {
            return state;
        }
        let item_completed = chars_of("item/completed");
        let turn_completed = chars_of("turn/completed");
        let error = chars_of("error");
        if crate::text::text_eq(&method, &item_completed) {
            let agent_message = chars_of("agentMessage");
            let text: Option<String> = match event.message.get("params") {
                Some(params) => match params.get("item") {
                    Some(item) => {
                        let is_agent = match item.str_at("type") {
                            Some(t) => string_is(t, &agent_message),
                            None => false,
                        };
                        if is_agent {
                            match item.str_at("text") {
                                Some(t) => Some(copy_string(t)),
                                None => None,
                            }
                        } else {
                            None
                        }
                    },
                    None => None,
                },
                None => None,
            };
            if text.is_some() {
                state.last_agent_message = text;
            }
        }
        if crate::text::text_eq(&method, &turn_completed) {
            state.completed = true;
        } else if crate::text::text_eq(&method, &error) {
            state.blocked_reason = Some(owned("app-server error"));
        }
        state
    }
}

/// The final artifact of a blocked turn.
pub open spec fn blocked_artifact(reason: Seq<char>) -> JsonV {
    empty_object().with(
        "nextActions"@,
        text_array(seq!["Review the pending approval request and resume the controller loop."@]),
    ).with(
        "questions"@,
        text_array(
            seq!["Please approve/resolve the pending request in GUI or via controller gate."@],
        ),
    ).with("status"@, JsonV::Str("blocked"@)).with("summary"@, JsonV::Str(reason))
}

/// The final artifact of a failed turn.
pub open spec fn failed_artifact(summary: Seq<char>, error: Seq<char>) -> JsonV {
    empty_object().with("errors"@, text_array(seq![error])).with(
        "status"@,
        JsonV::Str("failed"@),
    ).with("summary"@, JsonV::Str(summary))
}

/// The final artifact that a turn leaves. A blocked turn leaves a blocked artifact with
/// its reason. Else the last message of the agent is the artifact, where JSON stands
/// within it; a message without JSON, and a turn without a message, leave a failed
/// artifact.
pub open spec fn turn_artifact(state: TurnStateV) -> JsonV {
    match state.blocked_reason {
        Some(reason) => blocked_artifact(reason),
        None => match state.last_agent_message {
            Some(text) => {
                let doc = match json_within(text) {
                    Some(j) => parsed_json(j),
                    None => None,
                };
                match doc {
                    Some(d) => d,
                    None => failed_artifact(
                        "agentMessage is not valid JSON"@,
                        "Expected JSON worker output; got plain text."@,
                    ),
                }
            },
            None => failed_artifact(
                "missing agentMessage output"@,
                "No agentMessage item captured from app-server events."@,
            ),
        },
    }
}

/// Builds the array of one string.
fn one_string(text: &str) -> (r: Json)
    ensures
        r@ == text_array(seq![text@]),
{
    let mut items: Vec<String> = Vec::new();
    items.push(owned(text));
    proof {
        assert(views(items@) =~= seq![text@]);
    }
    crate::json::strings_to_json(&items)
}

/// Builds the final artifact of a failed turn.
fn failed(summary: &str, error: &str) -> (r: Json)
    ensures
        r@ == failed_artifact(summary@, error@),
{
    let mut out = Json::object();
    out.set("errors", one_string(error));
    out.set("status", Json::string("failed"));
    out.set("summary", Json::string(summary));
    out
}

/// Builds the final artifact that a turn leaves.
pub fn final_artifact(state: &TurnState) -> (r: Json)
    ensures
        r@ == turn_artifact(state@),
{
    if let Some(reason) = &state.blocked_reason {
        let mut out = Json::object();
        out.set(
            "nextActions",
            one_string("Review the pending approval request and resume the controller loop."),
        );
        out.set(
            "questions",
            one_string("Please approve/resolve the pending request in GUI or via controller gate."),
        );
        out.set("status", Json::string("blocked"));
        out.set("summary", Json::Str(copy_string(reason)));
        return out;
    }
    match &state.last_agent_message {
        Some(text) => {
            let doc = match extract_json_from_text(text.as_str()) {
                Some(j) => parse(j.as_str()),
                None => None,
            };
            match doc {
                Some(d) => d,
                None => failed(
                    "agentMessage is not valid JSON",
                    "Expected JSON worker output; got plain text.",
                ),
            }
        },
        None => failed(
            "missing agentMessage output",
            "No agentMessage item captured from app-server events.",
        ),
    }
}

} // verus!
