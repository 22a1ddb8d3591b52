//! What a front end shows of the threads of the vendor tool: how many interactions a
//! rollout log records, what the name of a rollout file tells, where notes on a thread
//! are kept, and which relative paths may be opened.

use vstd::prelude::*;
use crate::ids::{invalid_id_message, is_valid_id};
use crate::json::{parse, parsed_json, Json, JsonV};
use crate::paths::{is_absolute, join_path, joined, parts_of, path_parts, pieces, split_at_char};
use crate::rollout::text_at_or_empty;
use crate::split::{lines, split_lines, texts};
use crate::store::TaskStore;
use crate::text::{
    append_str, chars_of, contains, contains_text, has_prefix, has_suffix, is_blank, is_blank_text,
    owned, starts_with_str, string_of, sub_text, text_eq,
};

verus! {

/// The count of the interactions of a thread so far: the messages of the user, the
/// answers to them, and whether the last message still waits for its answer.
#[derive(Debug, Clone, Copy, PartialEq, Eq)]
pub struct Tally {
    pub users: u32,
    pub replies: u32,
    pub pending: bool,
}

/// One more, up to the greatest number.
pub open spec fn one_more(n: u32) -> u32 {
    if n < u32::MAX {
        (n + 1) as u32
    } else {
        n
    }
}

/// The count after the message that waits, if any, was answered.
pub open spec fn answered(t: Tally) -> Tally {
    if t.pending {
        Tally { users: t.users, replies: one_more(t.replies), pending: false }
    } else {
        t
    }
}

/// The count after a message of the user: a message that still waited counts as
/// answered, and the new one waits.
pub open spec fn asked(t: Tally) -> Tally {
    Tally {
        users: one_more(t.users),
        replies: if t.pending {
            one_more(t.replies)
        } else {
            t.replies
        },
        pending: true,
    }
}

/// An event of this type answers the message that waits: the end of a turn or task, an
/// error, and everything that the agent does.
pub open spec fn is_answer_event(event_type: Seq<char>) -> bool {
    event_type == "turn_complete"@ || event_type == "task_complete"@ || event_type
        == "turn_aborted"@ || event_type == "error"@ || has_prefix(event_type, "agent_"@)
}

/// The count after a record of the log.
pub open spec fn tally_record(t: Tally, record: JsonV) -> Tally {
    let line_type = text_at_or_empty(record, "type"@);
    if line_type == "event_msg"@ {
        match record.get("payload"@) {
            None => t,
            Some(payload) => {
                let event_type = text_at_or_empty(payload, "type"@);
                if event_type == "user_message"@ {
                    asked(t)
                } else if is_answer_event(event_type) {
                    answered(t)
                } else {
                    t
                }
            },
        }
    } else if line_type == "response_item"@ {
        answered(t)
    } else {
        t
    }
}

/// The count after a line of the log. Only a line that names an event or an item of a
/// response, and is a JSON document, counts.
pub open spec fn tally_line(t: Tally, line: Seq<char>) -> Tally {
    if !contains(line, "\"event_msg\""@) && !contains(line, "\"response_item\""@) {
        t
    } else {
        match parsed_json(line) {
            None => t,
            Some(record) => tally_record(t, record),
        }
    }
}

/// The count after the first `n` lines of the log.
pub open spec fn tally_lines(all: Seq<Seq<char>>, n: int) -> Tally
    decreases n,
{
    if n <= 0 || n > all.len() {
        Tally { users: 0, replies: 0, pending: false }
    } else {
        tally_line(tally_lines(all, n - 1), all[n - 1])
    }
}

/// The number of interactions that a count stands for: the messages and the answers,
/// up to the greatest number.
pub open spec fn interactions(t: Tally) -> u32 {
    if t.users + t.replies > u32::MAX {
        u32::MAX
    } else {
        (t.users + t.replies) as u32
    }
}

fn bump(n: u32) -> (r: u32)
    ensures
        r == one_more(n),
{
    if n < u32::MAX {
        n + 1
    } else {
        n
    }
}

fn answer(t: Tally) -> (r: Tally)
    ensures
        r == answered(t),
{
    if t.pending {
        Tally { users: t.users, replies: bump(t.replies), pending: false }
    } else {
        t
    }
}

/// Takes in a record of the log.
fn count_record(t: Tally, record: &Json) -> (r: Tally)
    ensures
        r == tally_record(t, record@),
{
    let line_type: Vec<char> = match record.str_at("type") {
        Some(s) => chars_of(s.as_str()),
        None => Vec::new(),
    };
    if text_eq(&line_type, &chars_of("event_msg")) {
        let payload = match record.get("payload") {
            Some(p) => p,
            None => {
                return t;
            },
        };
        let event_type: Vec<char> = match payload.str_at("type") {
            Some(s) => chars_of(s.as_str()),
            None => Vec::new(),
        };
        if text_eq(&event_type, &chars_of("user_message")) {
            Tally {
                users: bump(t.users),
                replies: if t.pending {
                    bump(t.replies)
                } else {
                    t.replies
                },
                pending: true,
            }
        } else if text_eq(&event_type, &chars_of("turn_complete")) || text_eq(
            &event_type,
            &chars_of("task_complete"),
        ) || text_eq(&event_type, &chars_of("turn_aborted")) || text_eq(
            &event_type,
            &chars_of("error"),
        ) || starts_with_str(&event_type, "agent_") {
            answer(t)
        } else {
            t
        }
    } else if text_eq(&line_type, &chars_of("response_item")) {
        answer(t)
    } else {
        t
    }
}

/// Counts the interactions that a rollout log records: each message of the user, and
/// each answer to one. A message is answered by the first thing that the agent does
/// after it, and at the latest by the next message.
pub fn interaction_count(log: &str) -> (r: u32)
    ensures
        r == interactions(tally_lines(lines(log@), lines(log@).len() as int)),
{
    let all = split_lines(&chars_of(log));
    let event_mark = chars_of("\"event_msg\"");
    let item_mark = chars_of("\"response_item\"");
    let mut t = Tally { users: 0, replies: 0, pending: false };
    let mut i: usize = 0;
    while i < all.len()
        invariant
            i <= all.len(),
            texts(all@) == lines(log@),
            event_mark@ == "\"event_msg\""@,
            item_mark@ == "\"response_item\""@,
            t == tally_lines(lines(log@), i as int),
        decreases all.len() - i,
    {
        let line = &all[i];
        proof {
            assert(texts(all@)[i as int] == line@);
        }
        if contains_text(line, &event_mark) || contains_text(line, &item_mark) {
            let text = string_of(line);
            match parse(text.as_str()) {
                Some(record) => {
                    t = count_record(t, &record);
                },
                None => {},
            }
        }
        i += 1;
    }
    let sum: u64 = t.users as u64 + t.replies as u64;
    if sum > u32::MAX as u64 {
        u32::MAX
    } else {
        sum as u32
    }
}

/// The part of the name of a rollout file between `rollout-` and `.jsonl`.
pub open spec fn rollout_core(name: Seq<char>) -> Option<Seq<char>> {
    if has_prefix(name, "rollout-"@) && has_suffix(name.skip(8), ".jsonl"@) {
        Some(name.subrange(8, name.len() - 6))
    } else {
        None
    }
}

/// Reads the part of the name of a rollout file between `rollout-` and `.jsonl`.
fn core_of(name: &Vec<char>) -> (r: Option<Vec<char>>)
    ensures
        match r {
            Some(c) => rollout_core(name@) == Some(c@),
            None => rollout_core(name@) is None,
        },
{
    if !starts_with_str(name, "rollout-") {
        return None;
    }
    proof {
        reveal_strlit("rollout-");
        reveal_strlit(".jsonl");
    }
    let rest = sub_text(name, 8, name.len());
    proof {
        assert(rest@ =~= name@.skip(8));
    }
    if !crate::text::ends_with(&rest, &chars_of(".jsonl")) {
        return None;
    }
    let core = sub_text(name, 8, name.len() - 6);
    Some(core)
}

/// The thread that the name of a rollout file tells: the last 36 characters before
/// `.jsonl`.
pub open spec fn thread_of_name(name: Seq<char>) -> Option<Seq<char>> {
    match rollout_core(name) {
        Some(core) => if core.len() < 36 {
            None
        } else {
            Some(core.skip(core.len() - 36))
        },
        None => None,
    }
}

/// Reads the thread from the name of a rollout file.
pub fn rollout_thread_id_from_filename(name: &str) -> (r: Option<String>)
    ensures
        crate::text::opt_view(r) == thread_of_name(name@),
{
    let core = match core_of(&chars_of(name)) {
        Some(c) => c,
        None => {
            return None;
        },
    };
    if core.len() < 36 {
        return None;
    }
    let id = sub_text(&core, core.len() - 36, core.len());
    proof {
        assert(id@ =~= core@.skip(core@.len() - 36));
    }
    Some(string_of(&id))
}

/// The date that the name of a rollout file tells: the year, the month and the day,
/// which the name writes with four, two and two characters and hyphens between them,
/// before a `T`.
pub open spec fn date_of_name(name: Seq<char>) -> Option<(Seq<char>, Seq<char>, Seq<char>)> {
    match rollout_core(name) {
        None => None,
        Some(core) => {
            let t = crate::text::index_of_char(core, 'T', 0);
            if t >= core.len() {
                None
            } else {
                let parts = pieces(core.take(t), '-');
                if parts.len() == 3 && parts[0].len() == 4 && parts[1].len() == 2 && parts[2].len()
                    == 2 {
                    Some((parts[0], parts[1], parts[2]))
                } else {
                    None
                }
            }
        },
    }
}

/// Reads the date from the name of a rollout file.
pub fn rollout_date_parts_from_filename(name: &str) -> (r: Option<(String, String, String)>)
    ensures
        match r {
            Some((y, m, d)) => date_of_name(name@) == Some((y@, m@, d@)),
            None => date_of_name(name@) is None,
        },
{
    let core = match core_of(&chars_of(name)) {
        Some(c) => c,
        None => {
            return None;
        },
    };
    let t = crate::text::find_char_from(&core, 'T', 0);
    if t >= core.len() {
        return None;
    }
    let date = sub_text(&core, 0, t);
    proof {
        assert(date@ =~= core@.take(t as int));
    }
    let parts = split_at_char(&date, '-');
    proof {
        assert(texts(parts@).len() == parts@.len());
    }
    if parts.len() != 3 {
        return None;
    }
    proof {
        assert(texts(parts@)[0] == parts@[0]@);
        assert(texts(parts@)[1] == parts@[1]@);
        assert(texts(parts@)[2] == parts@[2]@);
    }
    if parts[0].len() != 4 || parts[1].len() != 2 || parts[2].len() != 2 {
        return None;
    }
    Some((string_of(&parts[0]), string_of(&parts[1]), string_of(&parts[2])))
}

/// The directory of a workspace in which notes on threads are kept.
pub open spec fn notes_dir_of(root: Seq<char>, kind: Seq<char>) -> Seq<char> {
    joined(joined(joined(root, ".agentmesh"@), "codex"@), kind)
}

/// The file of the note of the given kind on a thread.
pub open spec fn note_path_of(root: Seq<char>, kind: Seq<char>, thread_id: Seq<char>) -> Seq<
    char,
> {
    joined(notes_dir_of(root, kind), thread_id + ".json"@)
}

/// Where the note of the given kind on a thread is kept.
fn note_path(workspace_root: &str, kind: &str, thread_id: &str) -> (r: String)
    ensures
        r@ == note_path_of(workspace_root@, kind@, thread_id@),
{
    let dir = notes_dir(workspace_root, kind);
    let mut name = chars_of(thread_id);
    append_str(&mut name, ".json");
    let file = string_of(&name);
    join_path(dir.as_str(), file.as_str())
}

/// The directory of the notes of one kind.
fn notes_dir(workspace_root: &str, kind: &str) -> (r: String)
    ensures
        r@ == notes_dir_of(workspace_root@, kind@),
{
    let base = join_path(workspace_root, ".agentmesh");
    let codex = join_path(base.as_str(), "codex");
    join_path(codex.as_str(), kind)
}

/// The directory in which the titles that users gave their threads are kept.
pub fn codex_thread_sidecar_dir(workspace_root: &str) -> (r: String)
    ensures
        r@ == notes_dir_of(workspace_root@, "threads"@),
{
    notes_dir(workspace_root, "threads")
}

/// The directory in which the marks of archived threads are kept.
pub fn codex_thread_archive_guard_dir(workspace_root: &str) -> (r: String)
    ensures
        r@ == notes_dir_of(workspace_root@, "archive_guards"@),
{
    notes_dir(workspace_root, "archive_guards")
}

/// Where the title that a user gave a thread is kept.
pub fn codex_thread_sidecar_path(workspace_root: &str, thread_id: &str) -> (r: String)
    ensures
        r@ == note_path_of(workspace_root@, "threads"@, thread_id@),
{
    note_path(workspace_root, "threads", thread_id)
}

/// Where the mark that keeps an archived thread from being restored is kept.
pub fn codex_thread_archive_guard_path(workspace_root: &str, thread_id: &str) -> (r: String)
    ensures
        r@ == note_path_of(workspace_root@, "archive_guards"@, thread_id@),
{
    note_path(workspace_root, "archive_guards", thread_id)
}

/// One of the first `n` parts of a path is `..`.
pub open spec fn climbs(parts: Seq<Seq<char>>, n: int) -> bool
    decreases n,
{
    if n <= 0 || n > parts.len() {
        false
    } else {
        parts[n - 1] == seq!['.', '.'] || climbs(parts, n - 1)
    }
}

/// Why a relative path is refused, if it is: it is blank, it is absolute, or it climbs
/// out of its base. `what` names the path in the message for a blank one.
pub open spec fn rel_path_fault(value: Seq<char>, what: Seq<char>) -> Option<Seq<char>> {
    if is_blank(value) {
        Some(what + " cannot be empty"@)
    } else if is_absolute(value) {
        Some("absolute paths are not allowed"@)
    } else if climbs(parts_of(value), parts_of(value).len() as int) {
        Some("path traversal is not allowed"@)
    } else {
        None
    }
}

/// Checks a relative path.
#[verifier::loop_isolation(false)]
fn validate_rel_path(value: &str, what: &str) -> (r: Result<String, String>)
    ensures
        match rel_path_fault(value@, what@) {
            Some(fault) => r matches Err(m) && m@ == fault,
            None => r matches Ok(p) && p@ == value@,
        },
{
    let v = chars_of(value);
    if is_blank_text(&v) {
        let mut out = chars_of(what);
        append_str(&mut out, " cannot be empty");
        return Err(string_of(&out));
    }
    if v.len() > 0 && v[0] == '/' {
        return Err(owned("absolute paths are not allowed"));
    }
    let parts = path_parts(&v);
    let mut i: usize = 0;
    while i < parts.len()
        invariant
            i <= parts.len(),
            texts(parts@) == parts_of(value@),
            !climbs(parts_of(value@), i as int),
        decreases parts.len() - i,
    {
        let p = &parts[i];
        proof {
            assert(texts(parts@)[i as int] == p@);
        }
        if p.len() == 2 && p[0] == '.' && p[1] == '.' {
            proof {
                assert(p@ =~= seq!['.', '.']);
                assert(climbs(parts_of(value@), i + 1));
                lemma_climbs_on(parts_of(value@), i + 1, parts_of(value@).len() as int);
            }
            return Err(owned("path traversal is not allowed"));
        }
        proof {
            assert(!(p@ =~= seq!['.', '.']));
        }
        i += 1;
    }
    Ok(string_of(&v))
}

/// A path that climbs within its first `n` parts climbs within more of them.
proof fn lemma_climbs_on(parts: Seq<Seq<char>>, n: int, m: int)
    requires
        0 <= n <= m <= parts.len(),
        climbs(parts, n),
    ensures
        climbs(parts, m),
    decreases m - n,
{
    if n < m {
        lemma_climbs_on(parts, n, m - 1);
    }
}

/// Accepts the relative path of an artifact: it must not be blank, absolute, or climb
/// out of the directory of the artifacts.
pub fn validate_artifact_rel_path(value: &str) -> (r: Result<String, String>)
    ensures
        match rel_path_fault(value@, "artifact path"@) {
            Some(fault) => r matches Err(m) && m@ == fault,
            None => r matches Ok(p) && p@ == value@,
        },
{
    validate_rel_path(value, "artifact path")
}

/// Accepts a path relative to the directory of a task: it must not be blank, absolute,
/// or climb out of that directory.
pub fn validate_task_rel_path(value: &str) -> (r: Result<String, String>)
    ensures
        match rel_path_fault(value@, "path"@) {
            Some(fault) => r matches Err(m) && m@ == fault,
            None => r matches Ok(p) && p@ == value@,
        },
{
    validate_rel_path(value, "path")
}

/// The categories of what a task shares.
pub open spec fn is_category(category: Seq<char>) -> bool {
    category == "reports"@ || category == "contracts"@ || category == "decisions"@
}

/// The directory of a category of what a task shares. The identifier of the task must
/// be one, and the category one of `reports`, `contracts` and `decisions`.
pub fn shared_category_dir(store: &TaskStore, task_id: &str, category: &str) -> (r: Result<
    String,
    String,
>)
    ensures
        !is_valid_id(task_id@) ==> (r matches Err(m) && m@ == invalid_id_message(
            task_id@,
            "task_id"@,
        )),
        is_valid_id(task_id@) && !is_category(category@) ==> (r matches Err(m) && m@
            == "invalid category: "@ + category@),
        is_valid_id(task_id@) && is_category(category@) ==> (r matches Ok(dir) && dir@ == joined(
            joined(crate::paths::task_dir_of(store.root(), task_id@), "shared"@),
            category@,
        )),
{
    match crate::ids::validate_id(task_id, "task_id") {
        Err(m) => {
            return Err(m);
        },
        Ok(()) => {},
    }
    let c = chars_of(category);
    if !(text_eq(&c, &chars_of("reports")) || text_eq(&c, &chars_of("contracts")) || text_eq(
        &c,
        &chars_of("decisions"),
    )) {
        let mut out = chars_of("invalid category: ");
        append_str(&mut out, category);
        return Err(string_of(&out));
    }
    let dir = store.task_dir(task_id);
    let shared = join_path(dir.as_str(), "shared");
    Ok(join_path(shared.as_str(), category))
}

/// The directory of a task.
pub fn task_root_dir(store: &TaskStore, task_id: &str) -> (r: String)
    ensures
        r@ == crate::paths::task_dir_of(store.root(), task_id@),
{
    store.task_dir(task_id)
}

/// The directory of the agents of a task.
pub fn task_agents_dir(store: &TaskStore, task_id: &str) -> (r: String)
    ensures
        r@ == joined(crate::paths::task_dir_of(store.root(), task_id@), "agents"@),
{
    let dir = store.task_dir(task_id);
    join_path(dir.as_str(), "agents")
}

/// The directory of what a task shares among its agents.
pub fn task_shared_dir(store: &TaskStore, task_id: &str) -> (r: String)
    ensures
        r@ == joined(crate::paths::task_dir_of(store.root(), task_id@), "shared"@),
{
    let dir = store.task_dir(task_id);
    join_path(dir.as_str(), "shared")
}

} // verus!
