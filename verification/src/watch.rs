//! Watching the file of a thread: which changes of the file system count as a change of
//! the watched file, and how often a change is passed on.

use vstd::prelude::*;
use crate::paths::{is_absolute, parts_of, path_parts};
use crate::split::texts;
use crate::text::{chars_of, copy_string, string_is, text_eq};

verus! {

/// What subscribers are told when the file of a thread has changed.
#[derive(Debug, Clone, PartialEq, Eq)]
pub struct CodexThreadWatchEvent {
    pub thread_id: String,
    pub path: String,
    pub updated_at_ms: Option<u64>,
}

/// Changes that follow one another within this many milliseconds are passed on once.
pub const DEBOUNCE_MS: u64 = 500;

/// What kind of change the file system reported.
#[derive(Debug, Clone, Copy, PartialEq, Eq)]
pub enum ChangeKind {
    /// Something was created.
    Create,
    /// Something was removed.
    Remove,
    /// The content of a file changed.
    ModifyData,
    /// A name changed.
    ModifyName,
    /// Something changed, and the system does not say what.
    ModifyAny,
    /// Metadata changed, or something else that leaves the content alone.
    ModifyOther,
    /// A file was read, or anything else that changes nothing.
    Other,
}

/// Tells whether a change of this kind can have changed the content of a file:
/// creations, removals, and modifications of content or names.
pub fn is_relevant_event(kind: ChangeKind) -> (r: bool)
    ensures
        r == (kind is Create || kind is Remove || kind is ModifyData || kind is ModifyName
            || kind is ModifyAny),
{
    match kind {
        ChangeKind::Create | ChangeKind::Remove => true,
        ChangeKind::ModifyData | ChangeKind::ModifyName | ChangeKind::ModifyAny => true,
        ChangeKind::ModifyOther | ChangeKind::Other => false,
    }
}

/// Two paths name the same place: both are absolute or neither is, and they have the
/// same parts.
pub open spec fn same_place(a: Seq<char>, b: Seq<char>) -> bool {
    is_absolute(a) == is_absolute(b) && parts_of(a) == parts_of(b)
}

/// The name of the file that a path ends in. A path that ends in `..`, and one without
/// a name (the root, or `.`), has none.
pub open spec fn file_name(path: Seq<char>) -> Option<Seq<char>> {
    let parts = parts_of(path);
    if parts.len() == 0 {
        None
    } else {
        let last = parts.last();
        if last == seq!['.', '.'] || last == seq!['.'] {
            None
        } else {
            Some(last)
        }
    }
}

/// The name of the file that a path ends in.
pub fn file_name_of(path: &Vec<char>) -> (r: Option<Vec<char>>)
    ensures
        match r {
            Some(name) => file_name(path@) == Some(name@),
            None => file_name(path@) is None,
        },
{
    let mut parts = path_parts(path);
    match parts.pop() {
        None => None,
        Some(last) => {
            proof {
                assert(texts(parts@.push(last)).last() == last@);
            }
            let dots = last.len() == 2 && last[0] == '.' && last[1] == '.';
            let dot = last.len() == 1 && last[0] == '.';
            proof {
                assert(dots == (last@ =~= seq!['.', '.']));
                assert(dot == (last@ =~= seq!['.']));
            }
            if dots || dot {
                None
            } else {
                Some(last)
            }
        },
    }
}

/// One of the changed paths is the watched file: it names the same place, or it ends in
/// the same file name.
pub open spec fn matches_target(path: Seq<char>, target: Seq<char>) -> bool {
    same_place(path, target) || file_name(path) == file_name(target)
}

/// Tells whether two paths name the same place.
pub fn paths_equal(a: &Vec<char>, b: &Vec<char>) -> (r: bool)
    ensures
        r == same_place(a@, b@),
{
    let abs_a = a.len() > 0 && a[0] == '/';
    let abs_b = b.len() > 0 && b[0] == '/';
    if abs_a != abs_b {
        return false;
    }
    let pa = path_parts(a);
    let pb = path_parts(b);
    if pa.len() != pb.len() {
        proof {
            assert(texts(pa@).len() != texts(pb@).len());
        }
        return false;
    }
    let mut i: usize = 0;
    while i < pa.len()
        invariant
            i <= pa.len(),
            pa.len() == pb.len(),
            texts(pa@) == parts_of(a@),
            texts(pb@) == parts_of(b@),
            forall|k: int| 0 <= k < i ==> parts_of(a@)[k] == parts_of(b@)[k],
        decreases pa.len() - i,
    {
        proof {
            assert(texts(pa@)[i as int] == pa@[i as int]@);
            assert(texts(pb@)[i as int] == pb@[i as int]@);
        }
        if !text_eq(&pa[i], &pb[i]) {
            return false;
        }
        i += 1;
    }
    proof {
        assert(parts_of(a@) =~= parts_of(b@));
    }
    true
}

/// Tells whether a change touches the watched file: whether one of the changed paths is
/// the watched file.
pub fn event_matches_path(paths: &Vec<String>, target: &str) -> (r: bool)
    ensures
        r == exists|i: int| 0 <= i < paths@.len() && matches_target(paths@[i]@, target@),
{
    let t = chars_of(target);
    let name = file_name_of(&t);
    let mut i: usize = 0;
    while i < paths.len()
        invariant
            i <= paths.len(),
            t@ == target@,
            match name {
                Some(n) => file_name(target@) == Some(n@),
                None => file_name(target@) is None,
            },
            forall|k: int| 0 <= k < i ==> !matches_target(paths@[k]@, target@),
        decreases paths.len() - i,
    {
        let p = chars_of(paths[i].as_str());
        let same_name = match (file_name_of(&p), &name) {
            (Some(a), Some(b)) => text_eq(&a, b),
            (None, None) => true,
            _ => false,
        };
        if paths_equal(&p, &t) || same_name {
            proof {
                assert(matches_target(paths@[i as int]@, target@));
            }
            return true;
        }
        i += 1;
    }
    false
}

/// Whether a change at `now_ms` is passed on, when the last one was passed on at
/// `last_emit_ms`: the first always is, a later one when the interval has gone by.
pub open spec fn passes_debounce(last_emit_ms: Option<u64>, now_ms: u64) -> bool {
    match last_emit_ms {
        None => true,
        Some(last) => now_ms >= last && now_ms - last >= DEBOUNCE_MS,
    }
}

/// The file of a thread that is watched, if any, and when a change was last passed on.
#[derive(Debug, Clone, PartialEq, Eq)]
pub struct ThreadWatchState {
    pub thread_id: Option<String>,
    pub path: Option<String>,
    pub last_emit_ms: Option<u64>,
}

/// What a watcher does with a change of the file system.
#[derive(Debug, Clone, PartialEq, Eq)]
pub enum WatchStep {
    /// The change is dropped.
    Ignore,
    /// The change is passed on for this thread and file; the caller adds when the file
    /// was last modified.
    Emit { thread_id: String, path: String },
}

impl ThreadWatchState {
    /// Nothing is watched.
    pub fn new() -> (r: Self)
        ensures
            r.thread_id is None,
            r.path is None,
            r.last_emit_ms is None,
    {
        ThreadWatchState { thread_id: None, path: None, last_emit_ms: None }
    }

    /// This thread and this file are watched.
    pub open spec fn watches(self, thread_id: Seq<char>, path: Seq<char>) -> bool {
        (self.thread_id matches Some(t) && t@ == thread_id) && (self.path matches Some(p)
            && same_place(p@, path))
    }

    /// Tells whether this thread and this file are watched.
    pub fn is_watching(&self, thread_id: &str, path: &str) -> (r: bool)
        ensures
            r == self.watches(thread_id@, path@),
    {
        let same_thread = match &self.thread_id {
            Some(t) => string_is(t, &chars_of(thread_id)),
            None => false,
        };
        let same_path = match &self.path {
            Some(p) => paths_equal(&chars_of(p.as_str()), &chars_of(path)),
            None => false,
        };
        same_thread && same_path
    }

    /// Starts to watch the file of a thread. Where exactly that is watched already,
    /// nothing changes and the result is false; otherwise the state names the new thread
    /// and file, no change has been passed on yet, and the result is true: the caller
    /// replaces its watcher.
    pub fn start(&mut self, thread_id: &str, path: &str) -> (fresh: bool)
        ensures
            fresh == !old(self).watches(thread_id@, path@),
            !fresh ==> *final(self) == *old(self),
            fresh ==> (final(self).thread_id matches Some(t) && t@ == thread_id@),
            fresh ==> (final(self).path matches Some(p) && p@ == path@),
            fresh ==> final(self).last_emit_ms is None,
    {
        if self.is_watching(thread_id, path) {
            return false;
        }
        self.thread_id = Some(crate::text::owned(thread_id));
        self.path = Some(crate::text::owned(path));
        self.last_emit_ms = None;
        true
    }

    /// Stops watching.
    pub fn stop(&mut self)
        ensures
            final(self).thread_id is None,
            final(self).path is None,
            final(self).last_emit_ms is None,
    {
        self.thread_id = None;
        self.path = None;
        self.last_emit_ms = None;
    }

    /// Decides what to do with a change of the file system at `now_ms`. The change is
    /// passed on where a file is watched, the kind of the change can have changed its
    /// content, one of the changed paths is the watched file, and the last change was
    /// passed on long enough ago; the state then remembers `now_ms`. Otherwise the
    /// change is dropped and the state stays as it is.
    pub fn on_change(&mut self, kind: ChangeKind, paths: &Vec<String>, now_ms: u64) -> (r:
        WatchStep)
        ensures
            match (old(self).thread_id, old(self).path) {
                (Some(t), Some(p)) => if (kind is Create || kind is Remove || kind is ModifyData
                    || kind is ModifyName || kind is ModifyAny) && (exists|i: int|
                    0 <= i < paths@.len() && matches_target(paths@[i]@, p@)) && passes_debounce(
                    old(self).last_emit_ms,
                    now_ms,
                ) {
                    (r matches WatchStep::Emit { thread_id, path } && thread_id@ == t@ && path@
                        == p@) && final(self).last_emit_ms == Some(now_ms)
                        && final(self).thread_id == old(self).thread_id
                        && final(self).path == old(self).path
                } else {
                    r is Ignore && *final(self) == *old(self)
                },
                _ => r is Ignore && *final(self) == *old(self),
            },
    {
        let (thread_id, path) = match (&self.thread_id, &self.path) {
            (Some(t), Some(p)) => (copy_string(t), copy_string(p)),
            _ => {
                return WatchStep::Ignore;
            },
        };
        if !is_relevant_event(kind) {
            return WatchStep::Ignore;
        }
        if !event_matches_path(paths, path.as_str()) {
            return WatchStep::Ignore;
        }
        let due = match self.last_emit_ms {
            None => true,
            Some(last) => now_ms >= last && now_ms - last >= DEBOUNCE_MS,
        };
        if !due {
            return WatchStep::Ignore;
        }
        self.last_emit_ms = Some(now_ms);
        WatchStep::Emit { thread_id, path }
    }
}

/// An instant as milliseconds since the epoch, from the whole seconds and the
/// nanoseconds of the second; nothing where the milliseconds do not fit 64 bits.
pub open spec fn epoch_ms(secs: u64, subsec_nanos: u32) -> Option<u64> {
    let ms = secs as int * 1000 + subsec_nanos as int / 1_000_000;
    if ms <= u64::MAX {
        Some(ms as u64)
    } else {
        None
    }
}

/// Writes an instant as milliseconds since the epoch.
pub fn to_epoch_ms(secs: u64, subsec_nanos: u32) -> (r: Option<u64>)
    ensures
        r == epoch_ms(secs, subsec_nanos),
{
    let ms: u128 = secs as u128 * 1000 + (subsec_nanos / 1_000_000) as u128;
    if ms <= u64::MAX as u128 {
        Some(ms as u64)
    } else {
        None
    }
}

} // verus!
