//! The rule for identifiers of tasks and agents.

use vstd::prelude::*;
use crate::error::{OrchestratorError, TaskStoreError};
use crate::text::{append_str, ascii_alphanumeric, chars_of, is_ascii_alnum, string_of};

verus! {

/// A character that an identifier may hold: an ASCII letter or digit, `_` or `-`.
pub open spec fn is_id_char(c: char) -> bool {
    is_ascii_alnum(c) || c == '_' || c == '-'
}

/// An identifier: not empty, and made of identifier characters only.
pub open spec fn is_valid_id(s: Seq<char>) -> bool {
    s.len() > 0 && forall|i: int| 0 <= i < s.len() ==> is_id_char(#[trigger] s[i])
}

/// Tells whether `v` is an identifier.
pub fn check_id(v: &Vec<char>) -> (r: bool)
    ensures
        r == is_valid_id(v@),
{
    if v.len() == 0 {
        return false;
    }
    let mut i: usize = 0;
    while i < v.len()
        invariant
            i <= v.len(),
            forall|j: int| 0 <= j < i ==> is_id_char(#[trigger] v@[j]),
        decreases v.len() - i,
    {
        let c = v[i];
        if !(ascii_alphanumeric(c) || c == '_' || c == '-') {
            return false;
        }
        i += 1;
    }
    true
}

/// Accepts an identifier of a task; anything else is an `InvalidTaskId` that carries it.
pub fn validate_task_id(task_id: &str) -> (r: Result<(), TaskStoreError>)
    ensures
        is_valid_id(task_id@) ==> r is Ok,
        !is_valid_id(task_id@) ==> (r matches Err(TaskStoreError::InvalidTaskId { task_id: t })
            && t@ == task_id@),
{
    let v = chars_of(task_id);
    if check_id(&v) {
        Ok(())
    } else {
        Err(TaskStoreError::InvalidTaskId { task_id: string_of(&v) })
    }
}

/// Accepts an identifier of an agent; anything else is an `InvalidAgentInstance` that
/// carries it.
pub fn validate_agent_instance(value: &str) -> (r: Result<(), OrchestratorError>)
    ensures
        is_valid_id(value@) ==> r is Ok,
        !is_valid_id(value@) ==> (r matches Err(
            OrchestratorError::InvalidAgentInstance { agent_instance: t },
        ) && t@ == value@),
{
    let v = chars_of(value);
    if check_id(&v) {
        Ok(())
    } else {
        Err(OrchestratorError::InvalidAgentInstance { agent_instance: string_of(&v) })
    }
}

/// The message for a value that is no identifier.
pub open spec fn invalid_id_message(value: Seq<char>, label: Seq<char>) -> Seq<char> {
    "invalid "@ + label + ": "@ + value
}

/// Accepts an identifier; anything else is answered with a message that names `label`
/// and the value.
pub fn validate_id(value: &str, label: &str) -> (r: Result<(), String>)
    ensures
        is_valid_id(value@) ==> r is Ok,
        !is_valid_id(value@) ==> (r matches Err(m) && m@ == invalid_id_message(value@, label@)),
{
    let v = chars_of(value);
    if check_id(&v) {
        Ok(())
    } else {
        let mut out = chars_of("invalid ");
        append_str(&mut out, label);
        append_str(&mut out, ": ");
        append_str(&mut out, value);
        Err(string_of(&out))
    }
}

} // verus!
