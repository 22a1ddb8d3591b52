//! The task store: where the files of a task lie, which directory entries are tasks, in
//! what order tasks are listed and which events of a log a reader gets.

use vstd::prelude::*;
use crate::paths::{join_path, join_path2, joined, task_dir_of, tasks_dir_of};
use crate::task::{TaskEvent, TaskEventV, TaskFile, TaskFileV, Timestamp};
use crate::text::{
    chars_of, has_prefix, lemma_views_push, starts_with, starts_with_str, views,
};

verus! {

/// The store of the tasks of a workspace.
#[derive(Debug, Clone, PartialEq, Eq)]
pub struct TaskStore {
    workspace_root: String,
}

impl TaskStore {
    /// The root of the workspace.
    pub closed spec fn root(self) -> Seq<char> {
        self.workspace_root@
    }

    /// The store of the workspace at `workspace_root`.
    pub fn new(workspace_root: String) -> (r: Self)
        ensures
            r.root() == workspace_root@,
    {
        TaskStore { workspace_root: workspace_root }
    }

    /// The root of the workspace.
    pub fn workspace_root(&self) -> (r: &str)
        ensures
            r@ == self.root(),
    {
        self.workspace_root.as_str()
    }

    /// The directory in which the tasks live: `.coco/tasks` below the root.
    pub fn tasks_dir(&self) -> (r: String)
        ensures
            r@ == tasks_dir_of(self.root()),
    {
        join_path2(self.workspace_root.as_str(), ".coco", "tasks")
    }

    /// The directory of the task `task_id`.
    pub fn task_dir(&self, task_id: &str) -> (r: String)
        ensures
            r@ == task_dir_of(self.root(), task_id@),
    {
        let dir = self.tasks_dir();
        join_path(dir.as_str(), task_id)
    }

    /// The descriptor of the task `task_id`.
    pub fn task_file(&self, task_id: &str) -> (r: String)
        ensures
            r@ == joined(task_dir_of(self.root(), task_id@), "task.yaml"@),
    {
        let dir = self.task_dir(task_id);
        join_path(dir.as_str(), "task.yaml")
    }

    /// The event log of the task `task_id`.
    pub fn events_file(&self, task_id: &str) -> (r: String)
        ensures
            r@ == joined(task_dir_of(self.root(), task_id@), "events.jsonl"@),
    {
        let dir = self.task_dir(task_id);
        join_path(dir.as_str(), "events.jsonl")
    }
}

/// A directory entry stands for a task: it is a directory that holds a descriptor, and
/// its name does not begin with a dot.
pub open spec fn is_task_entry(name: Seq<char>, is_dir: bool, has_descriptor: bool) -> bool {
    is_dir && has_descriptor && !has_prefix(name, "."@)
}

/// Tells whether a directory entry stands for a task.
pub fn lists_entry(name: &str, is_dir: bool, has_descriptor: bool) -> (r: bool)
    ensures
        r == is_task_entry(name@, is_dir, has_descriptor),
{
    if !is_dir || !has_descriptor {
        return false;
    }
    let n = chars_of(name);
    !starts_with_str(&n, ".")
}

/// The first index of a task that was updated no later than `at`; the number of tasks
/// if there is none.
pub open spec fn slot_for(tasks: Seq<TaskFileV>, at: Timestamp, from: int) -> int
    decreases tasks.len() - from,
{
    if from < 0 || from >= tasks.len() {
        tasks.len() as int
    } else if tasks[from].updated_at.le(at) {
        from
    } else {
        slot_for(tasks, at, from + 1)
    }
}

/// The first `n` tasks in the order of listing: the most recently updated first, and of
/// two tasks that were updated at the same instant the later one of the input first.
pub open spec fn listed_among(tasks: Seq<TaskFileV>, n: int) -> Seq<TaskFileV>
    decreases n,
{
    if n <= 0 || n > tasks.len() {
        Seq::empty()
    } else {
        let rest = listed_among(tasks, n - 1);
        rest.insert(slot_for(rest, tasks[n - 1].updated_at, 0), tasks[n - 1])
    }
}

/// The tasks in the order of listing.
pub open spec fn listed(tasks: Seq<TaskFileV>) -> Seq<TaskFileV> {
    listed_among(tasks, tasks.len() as int)
}

/// No task stands before one that was updated later.
pub open spec fn newest_first(tasks: Seq<TaskFileV>) -> bool {
    forall|i: int, j: int|
        0 <= i <= j < tasks.len() ==> (#[trigger] tasks[j]).updated_at.le(
            (#[trigger] tasks[i]).updated_at,
        )
}

/// The slot for an instant lies within the list; every task before it was updated later,
/// and the task at it no later.
pub proof fn lemma_slot_for(tasks: Seq<TaskFileV>, at: Timestamp, from: int)
    requires
        0 <= from <= tasks.len(),
    ensures
        from <= slot_for(tasks, at, from) <= tasks.len(),
        forall|j: int| from <= j < slot_for(tasks, at, from) ==> !(#[trigger] tasks[j]).updated_at.le(at),
        slot_for(tasks, at, from) < tasks.len() ==> tasks[slot_for(tasks, at, from)].updated_at.le(at),
    decreases tasks.len() - from,
{
    if from < tasks.len() && !tasks[from].updated_at.le(at) {
        lemma_slot_for(tasks, at, from + 1);
    }
}

/// The order of listing keeps every task and puts the newest first.
pub proof fn lemma_listed(tasks: Seq<TaskFileV>, n: int)
    requires
        0 <= n <= tasks.len(),
    ensures
        listed_among(tasks, n).len() == n,
        newest_first(listed_among(tasks, n)),
    decreases n,
{
    if n > 0 {
        lemma_listed(tasks, n - 1);
        let rest = listed_among(tasks, n - 1);
        let x = tasks[n - 1];
        let k = slot_for(rest, x.updated_at, 0);
        lemma_slot_for(rest, x.updated_at, 0);
        let out = rest.insert(k, x);
        assert forall|i: int, j: int| 0 <= i <= j < out.len() implies (#[trigger] out[j]).updated_at.le(
            (#[trigger] out[i]).updated_at,
        ) by {
            if i == j {
            } else if j < k {
                assert(out[i] == rest[i] && out[j] == rest[j]);
            } else if j == k {
                assert(out[i] == rest[i]);
                assert(!rest[i].updated_at.le(x.updated_at));
            } else if i < k {
                assert(out[i] == rest[i] && out[j] == rest[j - 1]);
            } else if i == k {
                assert(out[j] == rest[j - 1]);
                assert(rest[j - 1].updated_at.le(rest[k].updated_at));
            } else {
                assert(out[i] == rest[i - 1] && out[j] == rest[j - 1]);
            }
        }
    }
}

/// Puts tasks in the order of listing: the most recently updated first.
pub fn sort_tasks(tasks: Vec<TaskFile>) -> (out: Vec<TaskFile>)
    ensures
        views(out@) == listed(views(tasks@)),
        out.len() == tasks.len(),
        newest_first(views(out@)),
{
    let ghost input = views(tasks@);
    let mut tasks = tasks;
    let mut out: Vec<TaskFile> = Vec::new();
    let n = tasks.len();
    let mut done: usize = 0;
    proof {
        assert(views(out@) =~= listed_among(input, 0));
        assert(views(tasks@).skip(0) =~= views(tasks@));
    }
    while tasks.len() > 0
        invariant
            done + tasks.len() == n,
            n == input.len(),
            views(tasks@) == input.skip(done as int),
            views(out@) == listed_among(input, done as int),
            out.len() == done,
        decreases tasks.len(),
    {
        let ghost before = tasks@;
        let x = tasks.remove(0);
        proof {
            assert(views(before)[0] == x@);
            assert(input.skip(done as int)[0] == input[done as int]);
            assert(views(before.remove(0)) =~= views(before).skip(1));
            assert(input.skip(done as int).skip(1) =~= input.skip(done as int + 1));
        }
        let mut k: usize = 0;
        while k < out.len() && !out[k].updated_at.not_after(&x.updated_at)
            invariant
                k <= out.len(),
                slot_for(views(out@), x.updated_at, 0) == slot_for(
                    views(out@),
                    x.updated_at,
                    k as int,
                ),
            decreases out.len() - k,
        {
            k += 1;
        }
        proof {
            assert(views(out@.insert(k as int, x)) =~= views(out@).insert(k as int, x@));
        }
        out.insert(k, x);
        done += 1;
    }
    proof {
        lemma_listed(input, n as int);
    }
    out
}

/// The events among the first `n` of a log whose type begins with `prefix`.
pub open spec fn typed_among(log: Seq<TaskEventV>, prefix: Seq<char>, n: int) -> Seq<TaskEventV>
    decreases n,
{
    if n <= 0 || n > log.len() {
        Seq::empty()
    } else if has_prefix(log[n - 1].event_type, prefix) {
        typed_among(log, prefix, n - 1).push(log[n - 1])
    } else {
        typed_among(log, prefix, n - 1)
    }
}

/// The events of a log that a reader gets: those whose type begins with the prefix,
/// where one is given, without the first `offset` of them and at most `limit`.
pub open spec fn selected_events(
    log: Seq<TaskEventV>,
    prefix: Option<Seq<char>>,
    limit: nat,
    offset: nat,
) -> Seq<TaskEventV> {
    let typed = match prefix {
        Some(p) => typed_among(log, p, log.len() as int),
        None => log,
    };
    if offset >= typed.len() {
        Seq::empty()
    } else if offset + limit >= typed.len() {
        typed.skip(offset as int)
    } else {
        typed.subrange(offset as int, (offset + limit) as int)
    }
}

/// Selects the events of a log for a reader.
pub fn select_events(
    log: Vec<TaskEvent>,
    event_type_prefix: Option<&str>,
    limit: usize,
    offset: usize,
) -> (out: Vec<TaskEvent>)
    ensures
        views(out@) == selected_events(
            views(log@),
            match event_type_prefix {
                Some(p) => Some(p@),
                None => None,
            },
            limit as nat,
            offset as nat,
        ),
{
    let ghost input = views(log@);
    let ghost prefix_view: Option<Seq<char>> = match event_type_prefix {
        Some(p) => Some(p@),
        None => None,
    };
    let ghost typed = match prefix_view {
        Some(p) => typed_among(input, p, input.len() as int),
        None => input,
    };
    let mut log = log;
    let mut out: Vec<TaskEvent> = Vec::new();
    let mut seen: usize = 0;
    let mut done: usize = 0;
    let n = log.len();
    let prefix = match event_type_prefix {
        Some(p) => Some(chars_of(p)),
        None => None,
    };
    proof {
        assert(views(log@).skip(0) =~= views(log@));
        assert(views(out@) =~= Seq::<TaskEventV>::empty());
    }
    while log.len() > 0
        invariant
            done + log.len() == n,
            n == input.len(),
            views(log@) == input.skip(done as int),
            seen <= done,
            match prefix {
                Some(p) => prefix_view == Some(p@),
                None => prefix_view is None,
            },
            seen == match prefix_view {
                Some(p) => typed_among(input, p, done as int).len(),
                None => done as nat,
            },
            views(out@) == selected_events(
                match prefix_view {
                    Some(p) => typed_among(input, p, done as int),
                    None => input.take(done as int),
                },
                None,
                limit as nat,
                offset as nat,
            ),
        decreases log.len(),
    {
        let ghost before = log@;
        let e = log.remove(0);
        proof {
            assert(views(before)[0] == e@);
            assert(input.skip(done as int)[0] == input[done as int]);
            assert(views(before.remove(0)) =~= views(before).skip(1));
            assert(input.skip(done as int).skip(1) =~= input.skip(done as int + 1));
            assert(input.take(done as int + 1) =~= input.take(done as int).push(e@));
        }
        let keep = match &prefix {
            Some(p) => {
                let ty = chars_of(e.event_type.as_str());
                starts_with(&ty, p)
            },
            None => true,
        };
        if keep {
            let ghost so_far = match prefix_view {
                Some(p) => typed_among(input, p, done as int),
                None => input.take(done as int),
            };
            if seen >= offset && seen - offset < limit {
                proof {
                    lemma_views_push(out@, e);
                    assert(views(out@).push(e@) =~= selected_events(
                        so_far.push(e@),
                        None,
                        limit as nat,
                        offset as nat,
                    ));
                }
                out.push(e);
            } else {
                proof {
                    assert(views(out@) =~= selected_events(
                        so_far.push(e@),
                        None,
                        limit as nat,
                        offset as nat,
                    ));
                }
            }
            seen += 1;
        }
        done += 1;
    }
    proof {
        assert(input.take(n as int) =~= input);
    }
    out
}

} // verus!
