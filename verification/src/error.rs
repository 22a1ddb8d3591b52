//! The errors of the library and the exit codes that stand for them.

use vstd::prelude::*;
use crate::split::{decimal, push_decimal};
use crate::text::{append_str, chars_of, string_of};

verus! {

/// What can go wrong in the task store.
#[derive(Debug, Clone, PartialEq, Eq)]
pub enum TaskStoreError {
    Io(String),
    Yaml(String),
    Json(String),
    TaskNotFound { task_id: String },
    InvalidTaskId { task_id: String },
}

/// What can go wrong in the orchestrator.
#[derive(Debug, Clone, PartialEq, Eq)]
pub enum OrchestratorError {
    Store(TaskStoreError),
    Io(String),
    Json(String),
    InvalidAgentInstance { agent_instance: String },
    SubagentAlreadyExists { agent_instance: String },
    SubagentNotFound { agent_instance: String },
    ConcurrencyLimit { active: u32, limit: u32 },
    WaitAnyTimeout { timeout_seconds: u32 },
    CodexNotFound,
    UnsupportedAdapter { adapter: String },
}

/// What can go wrong with a batch worker.
#[derive(Debug, Clone, PartialEq, Eq)]
pub enum CodexExecError {
    CodexNotFound,
    Io(String),
    Json(String),
    Join(String),
    MissingFinalOutput { path: String },
}

/// What can go wrong in a session with a persistent worker.
#[derive(Debug, Clone, PartialEq, Eq)]
pub enum CodexAppServerError {
    CodexNotFound,
    Io(String),
    Json(String),
    RequestTimeout { method: String, timeout_secs: u64 },
    ResponseChannelClosed { method: String },
    ServerError { method: String, message: String },
    MissingThreadId,
}

/// The exit code for a task or an agent that does not exist.
pub const EXIT_CODE_NOT_FOUND: u8 = 3;

/// The exit code for an identifier that breaks the rules.
pub const EXIT_CODE_USAGE: u8 = 2;

/// The exit code for a wait that ran out of time.
pub const EXIT_CODE_TIMEOUT: u8 = 4;

/// The exit code for any other error.
pub const EXIT_CODE_FAILURE: u8 = 1;

/// The exit code that stands for an error of the store.
pub open spec fn store_exit_code(err: TaskStoreError) -> u8 {
    match err {
        TaskStoreError::TaskNotFound { .. } => EXIT_CODE_NOT_FOUND,
        TaskStoreError::InvalidTaskId { .. } => EXIT_CODE_USAGE,
        _ => EXIT_CODE_FAILURE,
    }
}

/// The exit code that stands for an error: 3 where a task or an agent does not exist, 4
/// where a wait ran out of time, 2 where an identifier breaks the rules, 1 otherwise.
pub open spec fn exit_code(err: OrchestratorError) -> u8 {
    match err {
        OrchestratorError::Store(e) => store_exit_code(e),
        OrchestratorError::SubagentNotFound { .. } => EXIT_CODE_NOT_FOUND,
        OrchestratorError::WaitAnyTimeout { .. } => EXIT_CODE_TIMEOUT,
        OrchestratorError::InvalidAgentInstance { .. } => EXIT_CODE_USAGE,
        _ => EXIT_CODE_FAILURE,
    }
}

/// The exit code that stands for an error of the store.
pub fn exit_code_for_store_error(err: &TaskStoreError) -> (code: u8)
    ensures
        code == store_exit_code(*err),
{
    match err {
        TaskStoreError::TaskNotFound { .. } => EXIT_CODE_NOT_FOUND,
        TaskStoreError::InvalidTaskId { .. } => EXIT_CODE_USAGE,
        _ => EXIT_CODE_FAILURE,
    }
}

/// The exit code that stands for an error.
pub fn exit_code_for_error(err: &OrchestratorError) -> (code: u8)
    ensures
        code == exit_code(*err),
{
    match err {
        OrchestratorError::Store(e) => exit_code_for_store_error(e),
        OrchestratorError::SubagentNotFound { .. } => EXIT_CODE_NOT_FOUND,
        OrchestratorError::WaitAnyTimeout { .. } => EXIT_CODE_TIMEOUT,
        OrchestratorError::InvalidAgentInstance { .. } => EXIT_CODE_USAGE,
        _ => EXIT_CODE_FAILURE,
    }
}

/// The message of an error of the store.
pub open spec fn store_message(err: TaskStoreError) -> Seq<char> {
    match err {
        TaskStoreError::Io(m) => "io error: "@ + m@,
        TaskStoreError::Yaml(m) => "yaml error: "@ + m@,
        TaskStoreError::Json(m) => "json error: "@ + m@,
        TaskStoreError::TaskNotFound { task_id } => "task not found: "@ + task_id@,
        TaskStoreError::InvalidTaskId { task_id } => "invalid task id: "@ + task_id@,
    }
}

/// The message of an error of the orchestrator.
pub open spec fn orchestrator_message(err: OrchestratorError) -> Seq<char> {
    match err {
        OrchestratorError::Store(e) => store_message(e),
        OrchestratorError::Io(m) => "io error: "@ + m@,
        OrchestratorError::Json(m) => "json error: "@ + m@,
        OrchestratorError::InvalidAgentInstance { agent_instance } => "invalid agent instance: "@
            + agent_instance@,
        OrchestratorError::SubagentAlreadyExists { agent_instance } =>
            "subagent already exists: "@ + agent_instance@,
        OrchestratorError::SubagentNotFound { agent_instance } => "subagent not found: "@
            + agent_instance@,
        OrchestratorError::ConcurrencyLimit { active, limit } =>
            "concurrency limit exceeded: active="@ + decimal(active as nat) + ", limit="@ + decimal(
                limit as nat,
            ),
        OrchestratorError::WaitAnyTimeout { timeout_seconds } => "wait-any timeout after "@
            + decimal(timeout_seconds as nat) + "s"@,
        OrchestratorError::CodexNotFound => "codex binary not found on PATH"@,
        OrchestratorError::UnsupportedAdapter { adapter } => "io error: unsupported adapter: "@
            + adapter@,
    }
}

impl TaskStoreError {
    /// The message of the error.
    pub fn message(&self) -> (r: String)
        ensures
            r@ == store_message(*self),
    {
        let (head, tail) = match self {
            TaskStoreError::Io(m) => ("io error: ", m),
            TaskStoreError::Yaml(m) => ("yaml error: ", m),
            TaskStoreError::Json(m) => ("json error: ", m),
            TaskStoreError::TaskNotFound { task_id } => ("task not found: ", task_id),
            TaskStoreError::InvalidTaskId { task_id } => ("invalid task id: ", task_id),
        };
        let mut out = chars_of(head);
        append_str(&mut out, tail.as_str());
        string_of(&out)
    }
}

impl OrchestratorError {
    /// The message of the error.
    pub fn message(&self) -> (r: String)
        ensures
            r@ == orchestrator_message(*self),
    {
        match self {
            OrchestratorError::Store(e) => e.message(),
            OrchestratorError::Io(m) => {
                let mut out = chars_of("io error: ");
                append_str(&mut out, m.as_str());
                string_of(&out)
            },
            OrchestratorError::Json(m) => {
                let mut out = chars_of("json error: ");
                append_str(&mut out, m.as_str());
                string_of(&out)
            },
            OrchestratorError::InvalidAgentInstance { agent_instance } => {
                let mut out = chars_of("invalid agent instance: ");
                append_str(&mut out, agent_instance.as_str());
                string_of(&out)
            },
            OrchestratorError::SubagentAlreadyExists { agent_instance } => {
                let mut out = chars_of("subagent already exists: ");
                append_str(&mut out, agent_instance.as_str());
                string_of(&out)
            },
            OrchestratorError::SubagentNotFound { agent_instance } => {
                let mut out = chars_of("subagent not found: ");
                append_str(&mut out, agent_instance.as_str());
                string_of(&out)
            },
            OrchestratorError::ConcurrencyLimit { active, limit } => {
                let mut out = chars_of("concurrency limit exceeded: active=");
                push_decimal(&mut out, *active as u64);
                append_str(&mut out, ", limit=");
                push_decimal(&mut out, *limit as u64);
                string_of(&out)
            },
            OrchestratorError::WaitAnyTimeout { timeout_seconds } => {
                let mut out = chars_of("wait-any timeout after ");
                push_decimal(&mut out, *timeout_seconds as u64);
                append_str(&mut out, "s");
                string_of(&out)
            },
            OrchestratorError::CodexNotFound => string_of(&chars_of("codex binary not found on PATH")),
            OrchestratorError::UnsupportedAdapter { adapter } => {
                let mut out = chars_of("io error: unsupported adapter: ");
                append_str(&mut out, adapter.as_str());
                string_of(&out)
            },
        }
    }
}

/// The message of an error of a batch worker.
pub open spec fn exec_message(err: CodexExecError) -> Seq<char> {
    match err {
        CodexExecError::CodexNotFound => "codex binary not found on PATH"@,
        CodexExecError::Io(m) => "io error: "@ + m@,
        CodexExecError::Json(m) => "json error: "@ + m@,
        CodexExecError::Join(m) => "join error: "@ + m@,
        CodexExecError::MissingFinalOutput { path } => "worker final output is missing: "@ + path@,
    }
}

impl CodexExecError {
    /// The message of the error.
    pub fn message(&self) -> (r: String)
        ensures
            r@ == exec_message(*self),
    {
        let (head, tail): (&str, &str) = match self {
            CodexExecError::CodexNotFound => ("codex binary not found on PATH", ""),
            CodexExecError::Io(m) => ("io error: ", m.as_str()),
            CodexExecError::Json(m) => ("json error: ", m.as_str()),
            CodexExecError::Join(m) => ("join error: ", m.as_str()),
            CodexExecError::MissingFinalOutput { path } => (
                "worker final output is missing: ",
                path.as_str(),
            ),
        };
        let mut out = chars_of(head);
        if !(self matches CodexExecError::CodexNotFound) {
            append_str(&mut out, tail);
        }
        string_of(&out)
    }
}

/// The message of an error of a session with a persistent worker.
pub open spec fn app_server_message(err: CodexAppServerError) -> Seq<char> {
    match err {
        CodexAppServerError::CodexNotFound => "codex binary not found on PATH"@,
        CodexAppServerError::Io(m) => "io error: "@ + m@,
        CodexAppServerError::Json(m) => "json error: "@ + m@,
        CodexAppServerError::RequestTimeout { method, timeout_secs } => "request timed out after "@
            + decimal(timeout_secs as nat) + "s: "@ + method@,
        CodexAppServerError::ResponseChannelClosed { method } => "response channel closed: "@
            + method@,
        CodexAppServerError::ServerError { method, message } => "server error for "@ + method@
            + ": "@ + message@,
        CodexAppServerError::MissingThreadId => "thread id missing from thread response"@,
    }
}

impl CodexAppServerError {
    /// The message of the error.
    pub fn message(&self) -> (r: String)
        ensures
            r@ == app_server_message(*self),
    {
        match self {
            CodexAppServerError::CodexNotFound => string_of(
                &chars_of("codex binary not found on PATH"),
            ),
            CodexAppServerError::Io(m) => {
                let mut out = chars_of("io error: ");
                append_str(&mut out, m.as_str());
                string_of(&out)
            },
            CodexAppServerError::Json(m) => {
                let mut out = chars_of("json error: ");
                append_str(&mut out, m.as_str());
                string_of(&out)
            },
            CodexAppServerError::RequestTimeout { method, timeout_secs } => {
                let mut out = chars_of("request timed out after ");
                push_decimal(&mut out, *timeout_secs);
                append_str(&mut out, "s: ");
                append_str(&mut out, method.as_str());
                string_of(&out)
            },
            CodexAppServerError::ResponseChannelClosed { method } => {
                let mut out = chars_of("response channel closed: ");
                append_str(&mut out, method.as_str());
                string_of(&out)
            },
            CodexAppServerError::ServerError { method, message } => {
                let mut out = chars_of("server error for ");
                append_str(&mut out, method.as_str());
                append_str(&mut out, ": ");
                append_str(&mut out, message.as_str());
                string_of(&out)
            },
            CodexAppServerError::MissingThreadId => string_of(
                &chars_of("thread id missing from thread response"),
            ),
        }
    }
}

/// An error of a session with a persistent worker, as the orchestrator reports it: a
/// missing program stays what it is, an error of JSON stays one with its text, and every
/// other error is an error of input and output with the message of the error, without
/// the prefix where the error was one of input and output already.
pub fn orchestrator_error_of(err: CodexAppServerError) -> (r: OrchestratorError)
    ensures
        match err {
            CodexAppServerError::CodexNotFound => r is CodexNotFound,
            CodexAppServerError::Io(m) => r matches OrchestratorError::Io(t) && t@ == m@,
            CodexAppServerError::Json(m) => r matches OrchestratorError::Json(t) && t@ == m@,
            _ => r matches OrchestratorError::Io(t) && t@ == app_server_message(err),
        },
{
    match err {
        CodexAppServerError::CodexNotFound => OrchestratorError::CodexNotFound,
        CodexAppServerError::Io(m) => OrchestratorError::Io(m),
        CodexAppServerError::Json(m) => OrchestratorError::Json(m),
        other => OrchestratorError::Io(other.message()),
    }
}

} // verus!
