//! The reconstruction of the activity of a thread, turn by turn, from its rollout log.
//!
//! The log is append-only and holds one JSON record on each line. The caller reads the
//! log and the files that its patches are about; what the records mean is decided here.

use vstd::prelude::*;
use crate::activity::{
    exec_command_of, extract_output_text, extract_text_list, is_mcp_name, looks_like_mcp_tool_name,
    mcp_parts, normalize_status, output_text_of, parse_exec_command_from_args, placeholder_json,
    rollout_placeholder, split_mcp_tool_name, status_of, text_list_of,
};
use crate::json::{
    empty_object, lemma_list_view, lemma_list_view_is, lemma_list_view_push, list_view, parse,
    parsed_json, strings_to_json, text_array, Json, JsonV,
};
use crate::patch::{
    enrich_file_change_diff, enrich_update_diff, enriched_update, enrichment_plan, Enrichment,
    EnrichmentV, TargetFile,
};
use crate::segments::{
    kind_json, parse_apply_patch_segments, segments_of, PatchFileSegment, PatchFileSegmentV,
};
use crate::split::{decimal, lines, push_decimal, push_decimal_wide, split_lines, texts};
use crate::text::{
    chars_of, contains, contains_text, copy_string, is_blank_text, lemma_views_push, lowercase,
    lowercased, owned, string_is, string_of, trim, views,
};

verus! {

/// What kind of item waits for the output of a call.
#[derive(Debug, Clone, Copy, PartialEq, Eq, Structural)]
pub enum PendingKind {
    Command,
    Mcp,
    ApplyPatch,
}

/// An item that waits for the output of the call `call_id`, and where it stands.
#[derive(Debug, Clone, PartialEq, Eq)]
pub struct PendingIndex {
    pub call_id: String,
    pub turn_index: usize,
    pub item_index: usize,
    pub kind: PendingKind,
}

/// The view of a [`PendingIndex`].
pub struct PendingV {
    pub call_id: Seq<char>,
    pub turn_index: int,
    pub item_index: int,
    pub kind: PendingKind,
}

impl View for PendingIndex {
    type V = PendingV;

    open spec fn view(&self) -> PendingV {
        PendingV {
            call_id: self.call_id@,
            turn_index: self.turn_index as int,
            item_index: self.item_index as int,
            kind: self.kind,
        }
    }
}

/// A file that the caller found for the rendering of patches.
#[derive(Debug, Clone, PartialEq, Eq)]
pub struct FoundFile {
    pub path: String,
    pub file: TargetFile,
}

/// The views of the turns of a reconstruction.
pub open spec fn turns_view(turns: Seq<Vec<Json>>) -> Seq<Seq<JsonV>> {
    Seq::new(turns.len(), |i: int| list_view(turns[i]@))
}

/// The state of a reconstruction: the items of each turn, and the items that wait for
/// the output of a call, the latest last.
pub struct RolloutV {
    pub turns: Seq<Seq<JsonV>>,
    pub pending: Seq<PendingV>,
}

/// The item that waits for the output of `call_id` among the first `n`: the latest one.
pub open spec fn pending_for(pending: Seq<PendingV>, call_id: Seq<char>, n: int) -> Option<
    PendingV,
>
    decreases n,
{
    if n <= 0 || n > pending.len() {
        None
    } else if pending[n - 1].call_id == call_id {
        Some(pending[n - 1])
    } else {
        pending_for(pending, call_id, n - 1)
    }
}

/// The waiting items among the first `n` that stand in one of the first `turns` turns.
pub open spec fn pending_within(pending: Seq<PendingV>, turns: int, n: int) -> Seq<PendingV>
    decreases n,
{
    if n <= 0 || n > pending.len() {
        Seq::empty()
    } else if pending[n - 1].turn_index < turns {
        pending_within(pending, turns, n - 1).push(pending[n - 1])
    } else {
        pending_within(pending, turns, n - 1)
    }
}

/// What the caller found at `path`: the first file of that path.
pub open spec fn found_at(files: Seq<FoundFile>, path: Seq<char>, from: int) -> Option<TargetFile>
    decreases files.len() - from,
{
    if from < 0 || from >= files.len() {
        None
    } else if files[from].path@ == path {
        Some(files[from].file)
    } else {
        found_at(files, path, from + 1)
    }
}

/// The text of the string member `key`; the empty text where there is none.
pub open spec fn text_at_or_empty(doc: JsonV, key: Seq<char>) -> Seq<char> {
    match doc.text_at(key) {
        Some(t) => t,
        None => Seq::empty(),
    }
}

/// The identifier of an item that the log gives none: the prefix, the index of the
/// turn, and the place of the item in the turn, counted from 1.
pub open spec fn made_id(prefix: Seq<char>, turn_index: int, place: int) -> Seq<char> {
    prefix + decimal(turn_index as nat) + seq!['-'] + decimal(place as nat)
}

/// The item for a reasoning of which only the summary is known.
pub open spec fn reasoning_item(id: Seq<char>, summary: Seq<Seq<char>>) -> JsonV {
    empty_object().with("content"@, text_array(Seq::empty())).with("id"@, JsonV::Str(id)).with(
        "summary"@,
        text_array(summary),
    ).with("type"@, JsonV::Str("reasoning"@))
}

/// The item for a command that was started.
pub open spec fn command_item(call_id: Seq<char>, arguments: Seq<char>) -> JsonV {
    empty_object().with("aggregatedOutput"@, JsonV::Null).with(
        "command"@,
        JsonV::Str(exec_command_of(arguments).0),
    ).with("commandActions"@, JsonV::Array(Seq::empty())).with(
        "cwd"@,
        JsonV::Str(
            match exec_command_of(arguments).1 {
                Some(c) => c,
                None => Seq::empty(),
            },
        ),
    ).with("durationMs"@, JsonV::Null).with("exitCode"@, JsonV::Null).with(
        "id"@,
        JsonV::Str(call_id),
    ).with("processId"@, JsonV::Null).with("status"@, JsonV::Str("inProgress"@)).with(
        "type"@,
        JsonV::Str("commandExecution"@),
    )
}

/// The item for a call of a tool of an MCP server that was started.
pub open spec fn mcp_item(
    call_id: Seq<char>,
    server: Seq<char>,
    tool: Seq<char>,
    arguments: Seq<char>,
) -> JsonV {
    empty_object().with(
        "arguments"@,
        match parsed_json(arguments) {
            Some(v) => v,
            None => JsonV::Str(arguments),
        },
    ).with("durationMs"@, JsonV::Null).with("error"@, JsonV::Null).with(
        "id"@,
        JsonV::Str(call_id),
    ).with("result"@, JsonV::Null).with("server"@, JsonV::Str(server)).with(
        "status"@,
        JsonV::Str("inProgress"@),
    ).with("tool"@, JsonV::Str(tool)).with("type"@, JsonV::Str("mcpToolCall"@))
}

/// The item for a search of the web.
pub open spec fn web_search_item(id: Seq<char>, query: Seq<char>) -> JsonV {
    empty_object().with("id"@, JsonV::Str(id)).with("query"@, JsonV::Str(query)).with(
        "type"@,
        JsonV::Str("webSearch"@),
    )
}

/// The rendering of a segment of a patch: the text and whether it has line numbers.
pub open spec fn rendered_segment(
    seg: PatchFileSegmentV,
    cwd: Option<Seq<char>>,
    files: Seq<FoundFile>,
) -> (Seq<char>, bool) {
    match enrichment_plan(seg.path, kind_json(seg.kind), seg.diff, cwd) {
        EnrichmentV::Done(text, numbered) => (text, numbered),
        EnrichmentV::NeedsFile(full) => enriched_update(seg.diff, found_at(files, full, 0)),
    }
}

/// The change that a segment of a patch makes, as the item of a file change lists it.
pub open spec fn change_json(
    seg: PatchFileSegmentV,
    cwd: Option<Seq<char>>,
    files: Seq<FoundFile>,
) -> JsonV {
    empty_object().with("diff"@, JsonV::Str(rendered_segment(seg, cwd, files).0)).with(
        "kind"@,
        kind_json(seg.kind),
    ).with("lineNumbersAvailable"@, JsonV::Bool(rendered_segment(seg, cwd, files).1)).with(
        "path"@,
        JsonV::Str(seg.path),
    )
}

/// The item for a patch that was applied.
pub open spec fn file_change_item(
    call_id: Seq<char>,
    input: Seq<char>,
    status: Seq<char>,
    cwd: Option<Seq<char>>,
    files: Seq<FoundFile>,
) -> JsonV {
    let segs = segments_of(input);
    empty_object().with(
        "changes"@,
        JsonV::Array(Seq::new(segs.len(), |i: int| change_json(segs[i], cwd, files))),
    ).with("id"@, JsonV::Str(call_id)).with("status"@, JsonV::Str(status_of(status))).with(
        "type"@,
        JsonV::Str("fileChange"@),
    )
}

/// The result of a call of a tool of an MCP server, with the text of its output.
pub open spec fn mcp_result(text: Seq<char>) -> JsonV {
    empty_object().with(
        "content"@,
        JsonV::Array(
            seq![
                empty_object().with("text"@, JsonV::Str(text)).with("type"@, JsonV::Str("text"@)),
            ],
        ),
    ).with("structuredContent"@, JsonV::Null)
}

/// The turns with one more item at the end of the last turn.
pub open spec fn with_item(turns: Seq<Seq<JsonV>>, item: JsonV) -> Seq<Seq<JsonV>> {
    if turns.len() == 0 {
        turns
    } else {
        turns.update(turns.len() - 1, turns.last().push(item))
    }
}

/// The turns with the item at the given place replaced by what `f` makes of it; the
/// turns as they are where there is no such place.
pub open spec fn with_changed_item(
    turns: Seq<Seq<JsonV>>,
    turn_index: int,
    item_index: int,
    item: JsonV,
) -> Seq<Seq<JsonV>> {
    if 0 <= turn_index < turns.len() && 0 <= item_index < turns[turn_index].len() {
        turns.update(turn_index, turns[turn_index].update(item_index, item))
    } else {
        turns
    }
}

/// The status that the output of a call leaves: `failed` where the output says that the
/// call did not succeed, `completed` otherwise.
pub open spec fn status_after_output(output: Option<JsonV>) -> Seq<char> {
    match output {
        Some(o) => if o.get("success"@) == Some(JsonV::Bool(false)) {
            "failed"@
        } else {
            "completed"@
        },
        None => "completed"@,
    }
}

/// The number of turns that a record rolls back: the number `num_turns` of its payload
/// where that is a number that is not negative, and 0 otherwise.
pub open spec fn rolled_back(payload: JsonV) -> nat {
    match payload.get("num_turns"@) {
        Some(JsonV::Int(n)) => if n >= 0 {
            n as nat
        } else {
            0
        },
        Some(JsonV::UInt(n)) => n as nat,
        _ => 0,
    }
}

/// The state after a record of the kind `event_msg`: a message of the user opens a
/// turn; a rollback drops that many turns from the end, and with them the items that
/// wait in them.
pub open spec fn after_event(st: RolloutV, payload: JsonV) -> RolloutV {
    let kind = text_at_or_empty(payload, "type"@);
    if kind == "user_message"@ {
        RolloutV { turns: st.turns.push(Seq::empty()), pending: st.pending }
    } else if kind == "thread_rolled_back"@ {
        let keep = if rolled_back(payload) >= st.turns.len() {
            0
        } else {
            st.turns.len() - rolled_back(payload)
        };
        if keep == st.turns.len() {
            st
        } else {
            RolloutV {
                turns: st.turns.take(keep),
                pending: pending_within(st.pending, keep, st.pending.len() as int),
            }
        }
    } else {
        st
    }
}

/// The state after a reasoning: nothing where it has neither summary nor content; else a
/// placeholder, after an item of its own where it has a summary and no content.
pub open spec fn after_reasoning(st: RolloutV, payload: JsonV) -> RolloutV {
    let summary = text_list_of(payload.get("summary"@));
    let content = text_list_of(payload.get("content"@));
    let ti = st.turns.len() - 1;
    if summary.len() == 0 && content.len() == 0 {
        st
    } else if summary.len() > 0 && content.len() == 0 {
        RolloutV {
            turns: with_item(
                with_item(
                    st.turns,
                    reasoning_item(
                        made_id("rollout-reasoning-"@, ti, st.turns.last().len() as int + 1),
                        summary,
                    ),
                ),
                placeholder_json("reasoning"@),
            ),
            pending: st.pending,
        }
    } else {
        RolloutV { turns: with_item(st.turns, placeholder_json("reasoning"@)), pending: st.pending }
    }
}

/// The state after a message: a placeholder for a message of the agent or of the user,
/// by the role of the message; nothing for any other role.
pub open spec fn after_message(st: RolloutV, payload: JsonV) -> RolloutV {
    let role = text_at_or_empty(payload, "role"@);
    if role == "assistant"@ {
        RolloutV {
            turns: with_item(st.turns, placeholder_json("agentMessage"@)),
            pending: st.pending,
        }
    } else if role == "user"@ {
        RolloutV {
            turns: with_item(st.turns, placeholder_json("userMessage"@)),
            pending: st.pending,
        }
    } else {
        st
    }
}

/// The state with one more item at the end of the last turn, which waits for the output
/// of `call_id`.
pub open spec fn with_pending_item(
    st: RolloutV,
    item: JsonV,
    call_id: Seq<char>,
    kind: PendingKind,
) -> RolloutV {
    RolloutV {
        turns: with_item(st.turns, item),
        pending: st.pending.push(
            PendingV {
                call_id: call_id,
                turn_index: st.turns.len() - 1,
                item_index: st.turns.last().len() as int,
                kind: kind,
            },
        ),
    }
}

/// The state after the call of a function: a call without an identifier is passed over;
/// `exec_command` starts a command; a name of a tool of an MCP server starts a call of
/// that tool; any other call is passed over.
pub open spec fn after_function_call(st: RolloutV, payload: JsonV) -> RolloutV {
    let name = text_at_or_empty(payload, "name"@);
    let arguments = text_at_or_empty(payload, "arguments"@);
    let call_id = text_at_or_empty(payload, "call_id"@);
    if call_id.len() == 0 {
        st
    } else if name == "exec_command"@ {
        with_pending_item(st, command_item(call_id, arguments), call_id, PendingKind::Command)
    } else if is_mcp_name(name) {
        match mcp_parts(name) {
            Some((server, tool)) => with_pending_item(
                st,
                mcp_item(call_id, server, tool, arguments),
                call_id,
                PendingKind::Mcp,
            ),
            None => st,
        }
    } else {
        st
    }
}

/// The state after the call of a custom tool: `apply_patch` with an identifier makes the
/// item of a file change; anything else is passed over.
pub open spec fn after_custom_call(
    st: RolloutV,
    payload: JsonV,
    cwd: Option<Seq<char>>,
    files: Seq<FoundFile>,
) -> RolloutV {
    let name = text_at_or_empty(payload, "name"@);
    let call_id = text_at_or_empty(payload, "call_id"@);
    if call_id.len() == 0 || name != "apply_patch"@ {
        st
    } else {
        with_pending_item(
            st,
            file_change_item(
                call_id,
                text_at_or_empty(payload, "input"@),
                match payload.text_at("status"@) {
                    Some(s) => s,
                    None => "completed"@,
                },
                cwd,
                files,
            ),
            call_id,
            PendingKind::ApplyPatch,
        )
    }
}

/// The query of a search of the web: the string `query` of the action of the record or,
/// failing that, of the record itself; the empty text where there is neither.
pub open spec fn search_query(payload: JsonV) -> Seq<char> {
    let in_action = match payload.get("action"@) {
        Some(a) => a.text_at("query"@),
        None => None,
    };
    match in_action {
        Some(q) => q,
        None => text_at_or_empty(payload, "query"@),
    }
}

/// The state after a search of the web: an item with the query, under the identifier of
/// the record or a made one; nothing where the query is empty.
pub open spec fn after_web_search(st: RolloutV, payload: JsonV) -> RolloutV {
    let query = search_query(payload);
    if query.len() == 0 {
        st
    } else {
        RolloutV {
            turns: with_item(
                st.turns,
                web_search_item(
                    match payload.text_at("id"@) {
                        Some(id) => id,
                        None => made_id(
                            "websearch-"@,
                            st.turns.len() - 1,
                            st.turns.last().len() as int + 1,
                        ),
                    },
                    query,
                ),
            ),
            pending: st.pending,
        }
    }
}

/// The item at a place of the turns; `null` where there is no such place.
pub open spec fn item_at(turns: Seq<Seq<JsonV>>, turn_index: int, item_index: int) -> JsonV {
    if 0 <= turn_index < turns.len() && 0 <= item_index < turns[turn_index].len() {
        turns[turn_index][item_index]
    } else {
        JsonV::Null
    }
}

/// The state after the output of a function: the command or the call of a tool that
/// waits for it gets its status, and the text of the output as its aggregated output or
/// its result.
pub open spec fn after_function_output(st: RolloutV, payload: JsonV) -> RolloutV {
    let call_id = text_at_or_empty(payload, "call_id"@);
    let text = match payload.get("output"@) {
        Some(o) => output_text_of(o),
        None => Seq::empty(),
    };
    let status = status_after_output(payload.get("output"@));
    if call_id.len() == 0 {
        st
    } else {
        match pending_for(st.pending, call_id, st.pending.len() as int) {
            None => st,
            Some(p) => {
                let item = item_at(st.turns, p.turn_index, p.item_index);
                match p.kind {
                    PendingKind::Command => RolloutV {
                        turns: with_changed_item(
                            st.turns,
                            p.turn_index,
                            p.item_index,
                            item.with("aggregatedOutput"@, JsonV::Str(text)).with(
                                "status"@,
                                JsonV::Str(status),
                            ),
                        ),
                        pending: st.pending,
                    },
                    PendingKind::Mcp => RolloutV {
                        turns: with_changed_item(
                            st.turns,
                            p.turn_index,
                            p.item_index,
                            item.with("status"@, JsonV::Str(status)).with(
                                "result"@,
                                mcp_result(text),
                            ),
                        ),
                        pending: st.pending,
                    },
                    PendingKind::ApplyPatch => st,
                }
            },
        }
    }
}

/// The state after the output of a custom tool: the file change that waits for it is
/// failed where the output, in lower case, holds `error` or `failed`, and completed
/// otherwise. An empty output changes nothing.
pub open spec fn after_custom_output(st: RolloutV, payload: JsonV) -> RolloutV {
    let call_id = text_at_or_empty(payload, "call_id"@);
    let output = text_at_or_empty(payload, "output"@);
    if call_id.len() == 0 || output.len() == 0 {
        st
    } else {
        match pending_for(st.pending, call_id, st.pending.len() as int) {
            Some(p) => if p.kind == PendingKind::ApplyPatch {
                RolloutV {
                    turns: with_changed_item(
                        st.turns,
                        p.turn_index,
                        p.item_index,
                        item_at(st.turns, p.turn_index, p.item_index).with(
                            "status"@,
                            JsonV::Str(
                                if contains(lowercased(output), "error"@) || contains(
                                    lowercased(output),
                                    "failed"@,
                                ) {
                                    "failed"@
                                } else {
                                    "completed"@
                                },
                            ),
                        ),
                    ),
                    pending: st.pending,
                }
            } else {
                st
            },
            None => st,
        }
    }
}

/// The state after a record of the kind `response_item`. Before the first turn is open
/// every such record is passed over.
pub open spec fn after_response(
    st: RolloutV,
    payload: JsonV,
    cwd: Option<Seq<char>>,
    files: Seq<FoundFile>,
) -> RolloutV {
    let kind = text_at_or_empty(payload, "type"@);
    if st.turns.len() == 0 {
        st
    } else if kind == "reasoning"@ {
        after_reasoning(st, payload)
    } else if kind == "message"@ {
        after_message(st, payload)
    } else if kind == "function_call"@ {
        after_function_call(st, payload)
    } else if kind == "custom_tool_call"@ {
        after_custom_call(st, payload, cwd, files)
    } else if kind == "web_search_call"@ || kind == "web_search"@ || kind
        == "web_search_call.done"@ {
        after_web_search(st, payload)
    } else if kind == "function_call_output"@ {
        after_function_output(st, payload)
    } else if kind == "custom_tool_call_output"@ {
        after_custom_output(st, payload)
    } else {
        st
    }
}

/// The state after one more line of the log. A blank line and a line that is no JSON
/// document are passed over, and so is a record that is neither an `event_msg` nor a
/// `response_item`.
pub open spec fn after_line(
    st: RolloutV,
    line: Seq<char>,
    cwd: Option<Seq<char>>,
    files: Seq<FoundFile>,
) -> RolloutV {
    if trim(line).len() == 0 {
        st
    } else {
        match parsed_json(line) {
            None => st,
            Some(record) => {
                let kind = text_at_or_empty(record, "type"@);
                let payload = match record.get("payload"@) {
                    Some(p) => p,
                    None => JsonV::Null,
                };
                if kind == "event_msg"@ {
                    after_event(st, payload)
                } else if kind == "response_item"@ {
                    after_response(st, payload, cwd, files)
                } else {
                    st
                }
            },
        }
    }
}

/// The state after the first `n` lines of the log.
pub open spec fn after_lines(
    all: Seq<Seq<char>>,
    n: int,
    cwd: Option<Seq<char>>,
    files: Seq<FoundFile>,
) -> RolloutV
    decreases n,
{
    if n <= 0 || n > all.len() {
        RolloutV { turns: Seq::empty(), pending: Seq::empty() }
    } else {
        after_line(after_lines(all, n - 1, cwd, files), all[n - 1], cwd, files)
    }
}

/// The turns brought to the number `target`: where there are more, the last `target` of
/// them; where there are fewer, as many empty turns before them as are missing.
pub open spec fn aligned_turns(turns: Seq<Seq<JsonV>>, target: nat) -> Seq<Seq<JsonV>> {
    if turns.len() >= target {
        turns.skip(turns.len() - target)
    } else {
        Seq::new((target - turns.len()) as nat, |i: int| Seq::<JsonV>::empty()) + turns
    }
}

/// The activity of a thread by turn, as its rollout log tells it: the turns that the
/// records of the log make, brought to the number of turns that the authoritative side
/// counts, and to one turn where it counts none.
pub open spec fn activity_by_turn(
    log: Seq<char>,
    turn_count: nat,
    cwd: Option<Seq<char>>,
    files: Seq<FoundFile>,
) -> Seq<Seq<JsonV>> {
    aligned_turns(
        after_lines(lines(log), lines(log).len() as int, cwd, files).turns,
        if turn_count == 0 {
            1
        } else {
            turn_count
        },
    )
}

/// Where the log counts more turns than the authoritative side, the last turns of the
/// log survive and the earlier ones are dropped: the result has as many turns as the
/// authoritative side counts, and its turn `i` is the turn of the log that stands that
/// far from the end.
pub proof fn law_trailing_turns_survive(turns: Seq<Seq<JsonV>>, target: nat, i: int)
    requires
        target <= turns.len(),
        0 <= i < target,
    ensures
        aligned_turns(turns, target).len() == target,
        aligned_turns(turns, target)[i] == turns[turns.len() - target + i],
{
}

/// Where the log counts fewer turns than the authoritative side, empty turns stand
/// before the turns of the log.
pub proof fn law_missing_turns_are_empty(turns: Seq<Seq<JsonV>>, target: nat, i: int)
    requires
        turns.len() < target,
        0 <= i < target,
    ensures
        aligned_turns(turns, target).len() == target,
        aligned_turns(turns, target)[i] == if i < target - turns.len() {
            Seq::<JsonV>::empty()
        } else {
            turns[i - (target - turns.len())]
        },
{
}

/// The state of a reconstruction.
#[derive(Debug, Clone, PartialEq, Eq)]
pub struct Rollout {
    pub turns: Vec<Vec<Json>>,
    pub pending: Vec<PendingIndex>,
}

impl View for Rollout {
    type V = RolloutV;

    open spec fn view(&self) -> RolloutV {
        RolloutV { turns: turns_view(self.turns@), pending: views(self.pending@) }
    }
}

/// Reads the text of the string member `key`, or the empty text.
fn text_at(doc: &Json, key: &str) -> (r: Vec<char>)
    ensures
        r@ == text_at_or_empty(doc@, key@),
{
    match doc.str_at(key) {
        Some(t) => chars_of(t.as_str()),
        None => Vec::new(),
    }
}

/// Makes the identifier of an item that the log gives none.
fn make_id(prefix: &str, turn_index: usize, place: u128) -> (r: String)
    ensures
        r@ == made_id(prefix@, turn_index as int, place as int),
{
    let mut out = chars_of(prefix);
    push_decimal(&mut out, turn_index as u64);
    out.push('-');
    push_decimal_wide(&mut out, place);
    string_of(&out)
}

/// Adds an item at the end of the last turn.
fn push_item(turns: &mut Vec<Vec<Json>>, item: Json)
    requires
        old(turns).len() > 0,
    ensures
        turns_view(final(turns)@) == with_item(turns_view(old(turns)@), item@),
        final(turns).len() == old(turns).len(),
        final(turns)@.last().len() == old(turns)@.last().len() + 1,
{
    let ghost before = turns@;
    let mut last = turns.pop().unwrap();
    proof {
        lemma_list_view_push(last@, item);
    }
    last.push(item);
    turns.push(last);
    proof {
        assert(turns_view(turns@) =~= with_item(turns_view(before), item@));
    }
}

/// Replaces the item at a place of the turns.
fn replace_item(turns: &mut Vec<Vec<Json>>, turn_index: usize, item_index: usize, item: Json)
    requires
        turn_index < old(turns).len(),
        item_index < old(turns)@[turn_index as int].len(),
    ensures
        turns_view(final(turns)@) == with_changed_item(
            turns_view(old(turns)@),
            turn_index as int,
            item_index as int,
            item@,
        ),
        final(turns).len() == old(turns).len(),
{
    let ghost before = turns@;
    let mut turn = turns.remove(turn_index);
    proof {
        lemma_list_view(turn@);
    }
    let ghost turn_before = turn@;
    turn.set(item_index, item);
    proof {
        lemma_list_view(turn@);
        lemma_list_view_is(turn@, list_view(turn_before).update(item_index as int, item@));
    }
    turns.insert(turn_index, turn);
    proof {
        assert(turns_view(turns@) =~= with_changed_item(
            turns_view(before),
            turn_index as int,
            item_index as int,
            item@,
        ));
    }
}

/// Finds the latest item that waits for the output of `call_id`.
fn find_pending(pending: &Vec<PendingIndex>, call_id: &Vec<char>) -> (r: Option<usize>)
    ensures
        match r {
            Some(at) => at < pending.len() && pending_for(
                views(pending@),
                call_id@,
                pending.len() as int,
            ) == Some(pending@[at as int]@),
            None => pending_for(views(pending@), call_id@, pending.len() as int) is None,
        },
{
    let mut i: usize = pending.len();
    while i > 0
        invariant
            i <= pending.len(),
            pending_for(views(pending@), call_id@, pending.len() as int) == pending_for(
                views(pending@),
                call_id@,
                i as int,
            ),
        decreases i,
    {
        if string_is(&pending[i - 1].call_id, call_id) {
            return Some(i - 1);
        }
        i -= 1;
    }
    None
}

/// Keeps the waiting items that stand in one of the first `turns` turns.
fn retain_pending(pending: &mut Vec<PendingIndex>, turns: usize)
    ensures
        views(final(pending)@) == pending_within(
            views(old(pending)@),
            turns as int,
            old(pending).len() as int,
        ),
{
    let mut kept: Vec<PendingIndex> = Vec::new();
    proof {
        assert(views(kept@) =~= Seq::<PendingV>::empty());
    }
    let mut i: usize = 0;
    while i < pending.len()
        invariant
            i <= pending.len(),
            *pending == *old(pending),
            views(kept@) == pending_within(views(pending@), turns as int, i as int),
        decreases pending.len() - i,
    {
        let p = &pending[i];
        if p.turn_index < turns {
            let c = PendingIndex {
                call_id: copy_string(&p.call_id),
                turn_index: p.turn_index,
                item_index: p.item_index,
                kind: p.kind,
            };
            proof {
                lemma_views_push(kept@, c);
            }
            kept.push(c);
        }
        i += 1;
    }
    *pending = kept;
}

/// Looks up what the caller found at `path`.
pub fn find_file<'a>(files: &'a Vec<FoundFile>, path: &Vec<char>) -> (r: Option<&'a TargetFile>)
    ensures
        match r {
            Some(f) => found_at(files@, path@, 0) == Some(*f),
            None => found_at(files@, path@, 0) is None,
        },
{
    let mut i: usize = 0;
    while i < files.len()
        invariant
            i <= files.len(),
            found_at(files@, path@, 0) == found_at(files@, path@, i as int),
        decreases files.len() - i,
    {
        if string_is(&files[i].path, path) {
            return Some(&files[i].file);
        }
        i += 1;
    }
    None
}

/// Renders a segment of a patch.
fn render_segment(seg: &PatchFileSegment, cwd: Option<&str>, files: &Vec<FoundFile>) -> (r: (
    String,
    bool,
))
    ensures
        r.0@ == rendered_segment(
            seg@,
            match cwd {
                Some(c) => Some(c@),
                None => None,
            },
            files@,
        ).0,
        r.1 == rendered_segment(
            seg@,
            match cwd {
                Some(c) => Some(c@),
                None => None,
            },
            files@,
        ).1,
{
    let kind = seg.kind.to_json();
    match enrich_file_change_diff(seg.path.as_str(), &kind, seg.diff.as_str(), cwd) {
        Enrichment::Done(text, numbered) => (text, numbered),
        Enrichment::NeedsFile(full) => {
            let path = chars_of(full.as_str());
            let file: Option<TargetFile> = match find_file(files, &path) {
                Some(f) => Some(
                    TargetFile {
                        is_file: f.is_file,
                        len: f.len,
                        content: match &f.content {
                            Some(c) => Some(copy_string(c)),
                            None => None,
                        },
                    },
                ),
                None => None,
            };
            proof {
                assert(enriched_update(seg.diff@, file) == enriched_update(
                    seg.diff@,
                    found_at(files@, full@, 0),
                ));
            }
            enrich_update_diff(seg.diff.as_str(), &file)
        },
    }
}

/// Builds the item for a patch that was applied.
fn build_file_change(
    call_id: &Vec<char>,
    input: &str,
    status: &str,
    cwd: Option<&str>,
    files: &Vec<FoundFile>,
) -> (r: Json)
    ensures
        r@ == file_change_item(
            call_id@,
            input@,
            status@,
            match cwd {
                Some(c) => Some(c@),
                None => None,
            },
            files@,
        ),
{
    let ghost cwdv: Option<Seq<char>> = match cwd {
        Some(c) => Some(c@),
        None => None,
    };
    let segs = parse_apply_patch_segments(input);
    let mut changes: Vec<Json> = Vec::new();
    let mut i: usize = 0;
    while i < segs.len()
        invariant
            i <= segs.len(),
            cwdv == match cwd {
                Some(c) => Some(c@),
                None => None,
            },
            list_view(changes@).len() == i,
            forall|j: int|
                0 <= j < i ==> #[trigger] list_view(changes@)[j] == change_json(
                    segs@[j]@,
                    cwdv,
                    files@,
                ),
        decreases segs.len() - i,
    {
        let seg = &segs[i];
        let (diff, numbered) = render_segment(seg, cwd, files);
        let mut change = Json::object();
        change.set("diff", Json::Str(diff));
        change.set("kind", seg.kind.to_json());
        change.set("lineNumbersAvailable", Json::Bool(numbered));
        change.set("path", Json::Str(copy_string(&seg.path)));
        proof {
            lemma_list_view_push(changes@, change);
        }
        changes.push(change);
        i += 1;
    }
    proof {
        assert(list_view(changes@) =~= Seq::new(
            segments_of(input@).len(),
            |i: int| change_json(segments_of(input@)[i], cwdv, files@),
        ));
    }
    let mut item = Json::object();
    item.set("changes", Json::Array(changes));
    item.set("id", Json::Str(string_of(call_id)));
    item.set("status", Json::string(normalize_status(status)));
    item.set("type", Json::string("fileChange"));
    item
}

/// Builds an empty array.
fn empty_array() -> (r: Json)
    ensures
        r@ == JsonV::Array(Seq::empty()),
{
    let items: Vec<Json> = Vec::new();
    proof {
        assert(list_view(items@) =~= Seq::<JsonV>::empty());
    }
    Json::Array(items)
}

/// Builds the array of no strings.
fn no_strings() -> (r: Json)
    ensures
        r@ == text_array(Seq::empty()),
{
    let items: Vec<String> = Vec::new();
    proof {
        assert(views(items@) =~= Seq::<Seq<char>>::empty());
    }
    strings_to_json(&items)
}

impl Rollout {
    /// The state before the first line.
    pub fn new() -> (r: Self)
        ensures
            r@ == (RolloutV { turns: Seq::empty(), pending: Seq::empty() }),
    {
        let r = Rollout { turns: Vec::new(), pending: Vec::new() };
        proof {
            assert(r@.turns =~= Seq::<Seq<JsonV>>::empty());
            assert(r@.pending =~= Seq::<PendingV>::empty());
        }
        r
    }

    /// Adds an item that waits for the output of a call.
    fn push_pending_item(&mut self, item: Json, call_id: &Vec<char>, kind: PendingKind)
        requires
            old(self).turns.len() > 0,
        ensures
            final(self)@ == with_pending_item(old(self)@, item@, call_id@, kind),
            final(self).turns.len() == old(self).turns.len(),
    {
        let turn_index = self.turns.len() - 1;
        let item_index = self.turns[turn_index].len();
        proof {
            lemma_list_view(self.turns@[turn_index as int]@);
            assert(turns_view(self.turns@).last() == list_view(self.turns@[turn_index as int]@));
        }
        push_item(&mut self.turns, item);
        let p = PendingIndex {
            call_id: string_of(call_id),
            turn_index: turn_index,
            item_index: item_index,
            kind: kind,
        };
        proof {
            lemma_views_push(self.pending@, p);
        }
        self.pending.push(p);
    }

    /// Takes in a record of the kind `event_msg`.
    fn on_event(&mut self, payload: &Json)
        ensures
            final(self)@ == after_event(old(self)@, payload@),
    {
        let kind = text_at(payload, "type");
        let user_message = chars_of("user_message");
        let rolled_back = chars_of("thread_rolled_back");
        if crate::text::text_eq(&kind, &user_message) {
            let ghost before = self.turns@;
            let turn: Vec<Json> = Vec::new();
            proof {
                assert(list_view(turn@) =~= Seq::<JsonV>::empty());
            }
            self.turns.push(turn);
            proof {
                assert(turns_view(self.turns@) =~= turns_view(before).push(Seq::empty()));
            }
        } else if crate::text::text_eq(&kind, &rolled_back) {
            let len = self.turns.len();
            let back: usize = match payload.get("num_turns") {
                Some(Json::Int(n)) => if *n < 0 {
                    0
                } else if *n as u64 >= len as u64 {
                    len
                } else {
                    *n as usize
                },
                Some(Json::UInt(n)) => if *n >= len as u64 {
                    len
                } else {
                    *n as usize
                },
                _ => 0,
            };
            let keep = len - back;
            if keep != len {
                let ghost before = self.turns@;
                self.turns.truncate(keep);
                proof {
                    assert(turns_view(self.turns@) =~= turns_view(before).take(keep as int));
                }
                retain_pending(&mut self.pending, keep);
            }
        }
    }

    /// Takes in a reasoning.
    fn on_reasoning(&mut self, payload: &Json)
        requires
            old(self).turns.len() > 0,
        ensures
            final(self)@ == after_reasoning(old(self)@, payload@),
    {
        let summary = extract_text_list(payload.get("summary"));
        let content = extract_text_list(payload.get("content"));
        if summary.len() == 0 && content.len() == 0 {
            return ;
        }
        if summary.len() > 0 && content.len() == 0 {
            let turn_index = self.turns.len() - 1;
            let place = self.turns[turn_index].len();
            proof {
                lemma_list_view(self.turns@[turn_index as int]@);
                assert(turns_view(self.turns@).last() == list_view(
                    self.turns@[turn_index as int]@,
                ));
            }
            let id = make_id("rollout-reasoning-", turn_index, place as u128 + 1);
            let mut item = Json::object();
            item.set("content", no_strings());
            item.set("id", Json::Str(id));
            item.set("summary", strings_to_json(&summary));
            item.set("type", Json::string("reasoning"));
            push_item(&mut self.turns, item);
        }
        push_item(&mut self.turns, rollout_placeholder("reasoning"));
    }

    /// Takes in a message.
    fn on_message(&mut self, payload: &Json)
        requires
            old(self).turns.len() > 0,
        ensures
            final(self)@ == after_message(old(self)@, payload@),
    {
        let role = text_at(payload, "role");
        let assistant = chars_of("assistant");
        let user = chars_of("user");
        if crate::text::text_eq(&role, &assistant) {
            push_item(&mut self.turns, rollout_placeholder("agentMessage"));
        } else if crate::text::text_eq(&role, &user) {
            push_item(&mut self.turns, rollout_placeholder("userMessage"));
        }
    }

    /// Takes in the call of a function.
    fn on_function_call(&mut self, payload: &Json)
        requires
            old(self).turns.len() > 0,
        ensures
            final(self)@ == after_function_call(old(self)@, payload@),
    {
        let name = text_at(payload, "name");
        let arguments = string_of(&text_at(payload, "arguments"));
        let call_id = text_at(payload, "call_id");
        if call_id.len() == 0 {
            return ;
        }
        let exec_command = chars_of("exec_command");
        let name_str = string_of(&name);
        if crate::text::text_eq(&name, &exec_command) {
            let (cmd, cwd) = parse_exec_command_from_args(arguments.as_str());
            let mut item = Json::object();
            item.set("aggregatedOutput", Json::Null);
            item.set("command", Json::Str(cmd));
            item.set("commandActions", empty_array());
            item.set(
                "cwd",
                Json::Str(
                    match cwd {
                        Some(c) => c,
                        None => String::new(),
                    },
                ),
            );
            item.set("durationMs", Json::Null);
            item.set("exitCode", Json::Null);
            item.set("id", Json::Str(string_of(&call_id)));
            item.set("processId", Json::Null);
            item.set("status", Json::string("inProgress"));
            item.set("type", Json::string("commandExecution"));
            self.push_pending_item(item, &call_id, PendingKind::Command);
        } else if looks_like_mcp_tool_name(name_str.as_str()) {
            match split_mcp_tool_name(name_str.as_str()) {
                Some((server, tool)) => {
                    let args = match parse(arguments.as_str()) {
                        Some(v) => v,
                        None => Json::Str(arguments),
                    };
                    let mut item = Json::object();
                    item.set("arguments", args);
                    item.set("durationMs", Json::Null);
                    item.set("error", Json::Null);
                    item.set("id", Json::Str(string_of(&call_id)));
                    item.set("result", Json::Null);
                    item.set("server", Json::Str(server));
                    item.set("status", Json::string("inProgress"));
                    item.set("tool", Json::Str(tool));
                    item.set("type", Json::string("mcpToolCall"));
                    self.push_pending_item(item, &call_id, PendingKind::Mcp);
                },
                None => {},
            }
        }
    }

    /// Takes in the call of a custom tool.
    fn on_custom_call(&mut self, payload: &Json, cwd: Option<&str>, files: &Vec<FoundFile>)
        requires
            old(self).turns.len() > 0,
        ensures
            final(self)@ == after_custom_call(
                old(self)@,
                payload@,
                match cwd {
                    Some(c) => Some(c@),
                    None => None,
                },
                files@,
            ),
    {
        let name = text_at(payload, "name");
        let call_id = text_at(payload, "call_id");
        let apply_patch = chars_of("apply_patch");
        if call_id.len() == 0 || !crate::text::text_eq(&name, &apply_patch) {
            return ;
        }
        let input = string_of(&text_at(payload, "input"));
        let status = match payload.str_at("status") {
            Some(s) => copy_string(s),
            None => owned("completed"),
        };
        let item = build_file_change(&call_id, input.as_str(), status.as_str(), cwd, files);
        self.push_pending_item(item, &call_id, PendingKind::ApplyPatch);
    }

    /// Takes in a search of the web.
    fn on_web_search(&mut self, payload: &Json)
        requires
            old(self).turns.len() > 0,
        ensures
            final(self)@ == after_web_search(old(self)@, payload@),
    {
        let in_action: Option<Vec<char>> = match payload.get("action") {
            Some(a) => match a.str_at("query") {
                Some(q) => Some(chars_of(q.as_str())),
                None => None,
            },
            None => None,
        };
        let query = match in_action {
            Some(q) => q,
            None => text_at(payload, "query"),
        };
        if query.len() == 0 {
            return ;
        }
        let turn_index = self.turns.len() - 1;
        let place = self.turns[turn_index].len();
        proof {
            lemma_list_view(self.turns@[turn_index as int]@);
            assert(turns_view(self.turns@).last() == list_view(self.turns@[turn_index as int]@));
        }
        let id = match payload.str_at("id") {
            Some(id) => copy_string(id),
            None => make_id("websearch-", turn_index, place as u128 + 1),
        };
        let mut item = Json::object();
        item.set("id", Json::Str(id));
        item.set("query", Json::Str(string_of(&query)));
        item.set("type", Json::string("webSearch"));
        push_item(&mut self.turns, item);
    }

    /// A copy of the item at a place, where there is such a place.
    fn item_copy(&self, turn_index: usize, item_index: usize) -> (r: Option<Json>)
        ensures
            match r {
                Some(item) => turn_index < self.turns.len() && item_index
                    < self.turns@[turn_index as int].len() && item@ == item_at(
                    self@.turns,
                    turn_index as int,
                    item_index as int,
                ),
                None => !(turn_index < self.turns.len() && item_index
                    < self@.turns[turn_index as int].len()),
            },
    {
        if turn_index < self.turns.len() {
            proof {
                lemma_list_view(self.turns@[turn_index as int]@);
            }
            if item_index < self.turns[turn_index].len() {
                return Some(self.turns[turn_index][item_index].copy());
            }
        }
        None
    }

    /// Takes in the output of a function.
    fn on_function_output(&mut self, payload: &Json)
        ensures
            final(self)@ == after_function_output(old(self)@, payload@),
    {
        let call_id = text_at(payload, "call_id");
        if call_id.len() == 0 {
            return ;
        }
        let text = match payload.get("output") {
            Some(o) => extract_output_text(o),
            None => String::new(),
        };
        let failed = match payload.get("output") {
            Some(o) => match o.get("success") {
                Some(Json::Bool(b)) => !*b,
                _ => false,
            },
            None => false,
        };
        let status = if failed {
            "failed"
        } else {
            "completed"
        };
        let at = match find_pending(&self.pending, &call_id) {
            Some(at) => at,
            None => {
                return ;
            },
        };
        let turn_index = self.pending[at].turn_index;
        let item_index = self.pending[at].item_index;
        let kind = self.pending[at].kind;
        proof {
            assert(views(self.pending@)[at as int] == self.pending@[at as int]@);
        }
        match kind {
            PendingKind::Command => {
                match self.item_copy(turn_index, item_index) {
                    Some(item) => {
                        let mut item = item;
                        item.set("aggregatedOutput", Json::Str(text));
                        item.set("status", Json::string(status));
                        replace_item(&mut self.turns, turn_index, item_index, item);
                    },
                    None => {},
                }
            },
            PendingKind::Mcp => {
                match self.item_copy(turn_index, item_index) {
                    Some(item) => {
                        let mut item = item;
                        let mut part = Json::object();
                        part.set("text", Json::Str(text));
                        part.set("type", Json::string("text"));
                        let mut content: Vec<Json> = Vec::new();
                        proof {
                            assert(list_view(content@) =~= Seq::<JsonV>::empty());
                            lemma_list_view_push(content@, part);
                        }
                        content.push(part);
                        proof {
                            assert(list_view(content@) =~= seq![part@]);
                        }
                        let mut result = Json::object();
                        result.set("content", Json::Array(content));
                        result.set("structuredContent", Json::Null);
                        item.set("status", Json::string(status));
                        item.set("result", result);
                        replace_item(&mut self.turns, turn_index, item_index, item);
                    },
                    None => {},
                }
            },
            PendingKind::ApplyPatch => {},
        }
    }

    /// Takes in the output of a custom tool.
    fn on_custom_output(&mut self, payload: &Json)
        ensures
            final(self)@ == after_custom_output(old(self)@, payload@),
    {
        let call_id = text_at(payload, "call_id");
        let output = text_at(payload, "output");
        if call_id.len() == 0 || output.len() == 0 {
            return ;
        }
        let at = match find_pending(&self.pending, &call_id) {
            Some(at) => at,
            None => {
                return ;
            },
        };
        proof {
            assert(views(self.pending@)[at as int] == self.pending@[at as int]@);
        }
        if self.pending[at].kind != PendingKind::ApplyPatch {
            return ;
        }
        let turn_index = self.pending[at].turn_index;
        let item_index = self.pending[at].item_index;
        let lower = chars_of(lowercase(string_of(&output).as_str()).as_str());
        let error = chars_of("error");
        let failed = chars_of("failed");
        let status = if contains_text(&lower, &error) || contains_text(&lower, &failed) {
            "failed"
        } else {
            "completed"
        };
        match self.item_copy(turn_index, item_index) {
            Some(item) => {
                let mut item = item;
                item.set("status", Json::string(status));
                replace_item(&mut self.turns, turn_index, item_index, item);
            },
            None => {},
        }
    }

    /// Takes in a record of the kind `response_item`.
    fn on_response(&mut self, payload: &Json, cwd: Option<&str>, files: &Vec<FoundFile>)
        ensures
            final(self)@ == after_response(
                old(self)@,
                payload@,
                match cwd {
                    Some(c) => Some(c@),
                    None => None,
                },
                files@,
            ),
    {
        if self.turns.len() == 0 {
            return ;
        }
        let kind = text_at(payload, "type");
        if crate::text::text_eq(&kind, &chars_of("reasoning")) {
            self.on_reasoning(payload);
        } else if crate::text::text_eq(&kind, &chars_of("message")) {
            self.on_message(payload);
        } else if crate::text::text_eq(&kind, &chars_of("function_call")) {
            self.on_function_call(payload);
        } else if crate::text::text_eq(&kind, &chars_of("custom_tool_call")) {
            self.on_custom_call(payload, cwd, files);
        } else if crate::text::text_eq(&kind, &chars_of("web_search_call")) || crate::text::text_eq(
            &kind,
            &chars_of("web_search"),
        ) || crate::text::text_eq(&kind, &chars_of("web_search_call.done")) {
            self.on_web_search(payload);
        } else if crate::text::text_eq(&kind, &chars_of("function_call_output")) {
            self.on_function_output(payload);
        } else if crate::text::text_eq(&kind, &chars_of("custom_tool_call_output")) {
            self.on_custom_output(payload);
        }
    }

    /// Takes in one line of the log.
    pub fn step(&mut self, line: &Vec<char>, cwd: Option<&str>, files: &Vec<FoundFile>)
        ensures
            final(self)@ == after_line(
                old(self)@,
                line@,
                match cwd {
                    Some(c) => Some(c@),
                    None => None,
                },
                files@,
            ),
    {
        if is_blank_text(line) {
            return ;
        }
        let text = string_of(line);
        let record = match parse(text.as_str()) {
            Some(r) => r,
            None => {
                return ;
            },
        };
        let kind = text_at(&record, "type");
        let null = Json::Null;
        let payload: &Json = match record.get("payload") {
            Some(p) => p,
            None => &null,
        };
        if crate::text::text_eq(&kind, &chars_of("event_msg")) {
            self.on_event(payload);
        } else if crate::text::text_eq(&kind, &chars_of("response_item")) {
            self.on_response(payload, cwd, files);
        }
    }
}

/// Brings the turns to the number `target`.
pub fn align_turns(turns: Vec<Vec<Json>>, target: usize) -> (out: Vec<Vec<Json>>)
    ensures
        turns_view(out@) == aligned_turns(turns_view(turns@), target as nat),
{
    let mut turns = turns;
    let ghost before = turns@;
    if turns.len() >= target {
        let cut = turns.len() - target;
        let kept = turns.split_off(cut);
        proof {
            assert(turns_view(kept@) =~= turns_view(before).skip(cut as int));
        }
        return kept;
    }
    let missing = target - turns.len();
    let mut out: Vec<Vec<Json>> = Vec::new();
    let mut i: usize = 0;
    while i < missing
        invariant
            i <= missing,
            out.len() == i,
            forall|k: int| 0 <= k < i ==> (#[trigger] out@[k])@.len() == 0,
        decreases missing - i,
    {
        out.push(Vec::new());
        i += 1;
    }
    let ghost pad = out@;
    out.append(&mut turns);
    proof {
        assert forall|k: int| 0 <= k < missing implies #[trigger] turns_view(out@)[k]
            == Seq::<JsonV>::empty() by {
            assert(out@[k] == pad[k]);
            assert(list_view(pad[k]@) =~= Seq::<JsonV>::empty());
        }
        assert(turns_view(out@) =~= aligned_turns(turns_view(before), target as nat));
    }
    out
}

/// Reconstructs the activity of a thread by turn from the text of its rollout log.
///
/// `turn_count` is the number of turns that the authoritative side counts, `cwd` the
/// working directory that paths in patches are relative to, and `files` what the caller
/// found at the paths that `patch_targets` lists. A file that is not among them counts as
/// unreadable.
pub fn parse_rollout_activity_by_turn(
    log: &str,
    turn_count: usize,
    cwd: Option<&str>,
    files: &Vec<FoundFile>,
) -> (out: Vec<Vec<Json>>)
    ensures
        turns_view(out@) == activity_by_turn(
            log@,
            turn_count as nat,
            match cwd {
                Some(c) => Some(c@),
                None => None,
            },
            files@,
        ),
{
    let ghost cwdv: Option<Seq<char>> = match cwd {
        Some(c) => Some(c@),
        None => None,
    };
    let content = chars_of(log);
    let all = split_lines(&content);
    let mut st = Rollout::new();
    let mut i: usize = 0;
    while i < all.len()
        invariant
            i <= all.len(),
            texts(all@) == lines(log@),
            cwdv == match cwd {
                Some(c) => Some(c@),
                None => None,
            },
            st@ == after_lines(lines(log@), i as int, cwdv, files@),
        decreases all.len() - i,
    {
        proof {
            assert(texts(all@)[i as int] == all@[i as int]@);
        }
        st.step(&all[i], cwd, files);
        i += 1;
    }
    let target = if turn_count == 0 {
        1
    } else {
        turn_count
    };
    align_turns(st.turns, target)
}

/// The files that the rendering of the first `n` segments of a patch needs.
pub open spec fn segment_targets(
    segs: Seq<PatchFileSegmentV>,
    cwd: Option<Seq<char>>,
    n: int,
) -> Seq<Seq<char>>
    decreases n,
{
    if n <= 0 || n > segs.len() {
        Seq::empty()
    } else {
        match enrichment_plan(segs[n - 1].path, kind_json(segs[n - 1].kind), segs[n - 1].diff, cwd) {
            EnrichmentV::NeedsFile(full) => segment_targets(segs, cwd, n - 1).push(full),
            EnrichmentV::Done(_, _) => segment_targets(segs, cwd, n - 1),
        }
    }
}

/// The files that the reading of a line of the log needs: those of the segments of the
/// patch, where the line records the application of one.
pub open spec fn line_targets(line: Seq<char>, cwd: Option<Seq<char>>) -> Seq<Seq<char>> {
    if trim(line).len() == 0 {
        Seq::empty()
    } else {
        match parsed_json(line) {
            None => Seq::empty(),
            Some(record) => {
                let payload = match record.get("payload"@) {
                    Some(p) => p,
                    None => JsonV::Null,
                };
                if text_at_or_empty(record, "type"@) == "response_item"@ && text_at_or_empty(
                    payload,
                    "type"@,
                ) == "custom_tool_call"@ && text_at_or_empty(payload, "name"@) == "apply_patch"@
                    && text_at_or_empty(payload, "call_id"@).len() > 0 {
                    let segs = segments_of(text_at_or_empty(payload, "input"@));
                    segment_targets(segs, cwd, segs.len() as int)
                } else {
                    Seq::empty()
                }
            },
        }
    }
}

/// The files that the reading of the first `n` lines of the log needs, in the order of
/// the log.
pub open spec fn log_targets(all: Seq<Seq<char>>, cwd: Option<Seq<char>>, n: int) -> Seq<Seq<char>>
    decreases n,
{
    if n <= 0 || n > all.len() {
        Seq::empty()
    } else {
        log_targets(all, cwd, n - 1) + line_targets(all[n - 1], cwd)
    }
}

/// Lists the files that the reconstruction of the activity of a thread needs: the paths
/// of the files that the patches of the log update.
pub fn patch_targets(log: &str, cwd: Option<&str>) -> (out: Vec<String>)
    ensures
        views(out@) == log_targets(
            lines(log@),
            match cwd {
                Some(c) => Some(c@),
                None => None,
            },
            lines(log@).len() as int,
        ),
{
    let ghost cwdv: Option<Seq<char>> = match cwd {
        Some(c) => Some(c@),
        None => None,
    };
    let content = chars_of(log);
    let all = split_lines(&content);
    let mut out: Vec<String> = Vec::new();
    proof {
        assert(views(out@) =~= Seq::<Seq<char>>::empty());
    }
    let mut i: usize = 0;
    while i < all.len()
        invariant
            i <= all.len(),
            texts(all@) == lines(log@),
            cwdv == match cwd {
                Some(c) => Some(c@),
                None => None,
            },
            views(out@) == log_targets(lines(log@), cwdv, i as int),
        decreases all.len() - i,
    {
        let line = &all[i];
        let ghost before = views(out@);
        proof {
            assert(texts(all@)[i as int] == line@);
            assert(before + Seq::<Seq<char>>::empty() =~= before);
        }
        i += 1;
        if is_blank_text(line) {
            continue;
        }
        let text = string_of(line);
        let record = match parse(text.as_str()) {
            Some(r) => r,
            None => {
                continue;
            },
        };
        let null = Json::Null;
        let payload: &Json = match record.get("payload") {
            Some(p) => p,
            None => &null,
        };
        let wanted = crate::text::text_eq(&text_at(&record, "type"), &chars_of("response_item"))
            && crate::text::text_eq(&text_at(payload, "type"), &chars_of("custom_tool_call"))
            && crate::text::text_eq(&text_at(payload, "name"), &chars_of("apply_patch")) && text_at(
            payload,
            "call_id",
        ).len() > 0;
        if !wanted {
            continue;
        }
        let input = string_of(&text_at(payload, "input"));
        let segs = parse_apply_patch_segments(input.as_str());
        proof {
            assert(before + segment_targets(views(segs@), cwdv, 0) =~= before);
        }
        let mut j: usize = 0;
        while j < segs.len()
            invariant
                j <= segs.len(),
                cwdv == match cwd {
                    Some(c) => Some(c@),
                    None => None,
                },
                views(out@) == before + segment_targets(views(segs@), cwdv, j as int),
            decreases segs.len() - j,
        {
            let seg = &segs[j];
            proof {
                assert(views(segs@)[j as int] == seg@);
            }
            let kind = seg.kind.to_json();
            match enrich_file_change_diff(seg.path.as_str(), &kind, seg.diff.as_str(), cwd) {
                Enrichment::NeedsFile(full) => {
                    proof {
                        lemma_views_push(out@, full);
                        assert(before + segment_targets(views(segs@), cwdv, j as int + 1) =~= (before
                            + segment_targets(views(segs@), cwdv, j as int)).push(full@));
                    }
                    out.push(full);
                },
                Enrichment::Done(_, _) => {},
            }
            j += 1;
        }
    }
    out
}

} // verus!
