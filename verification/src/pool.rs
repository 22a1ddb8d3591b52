//! The pool of persistent sessions: at most one session for each home of the vendor
//! tool, a fixed capacity, and no eviction.
//!
//! The caller owns the sessions and starts and ends them; the pool keeps the books.

use std::hash::{Hash, Hasher};
use vstd::prelude::*;
use crate::split::{decimal, push_decimal};
use crate::text::{
    append_str, chars_of, copy_string, lemma_views_push, opt_view, owned, string_is, string_of,
    trim, trim_text, views,
};

verus! {

/// A profile as the pool compares it: trimmed, and none where nothing is left.
pub open spec fn normal_profile(profile: Option<Seq<char>>) -> Option<Seq<char>> {
    match profile {
        Some(p) => if trim(p).len() == 0 {
            None
        } else {
            Some(trim(p))
        },
        None => None,
    }
}

/// Brings a profile into the form in which the pool compares it.
pub fn normalize_profile(profile: Option<&str>) -> (r: Option<String>)
    ensures
        opt_view(r) == normal_profile(
            match profile {
                Some(p) => Some(p@),
                None => None,
            },
        ),
{
    match profile {
        Some(p) => {
            let v = chars_of(p);
            let t = trim_text(&v);
            if t.len() == 0 {
                None
            } else {
                Some(string_of(&t))
            }
        },
        None => None,
    }
}

/// The character of a hexadecimal digit.
pub open spec fn hex_char(d: int) -> char {
    if d == 0 {
        '0'
    } else if d == 1 {
        '1'
    } else if d == 2 {
        '2'
    } else if d == 3 {
        '3'
    } else if d == 4 {
        '4'
    } else if d == 5 {
        '5'
    } else if d == 6 {
        '6'
    } else if d == 7 {
        '7'
    } else if d == 8 {
        '8'
    } else if d == 9 {
        '9'
    } else if d == 10 {
        'a'
    } else if d == 11 {
        'b'
    } else if d == 12 {
        'c'
    } else if d == 13 {
        'd'
    } else if d == 14 {
        'e'
    } else {
        'f'
    }
}

/// The last `width` hexadecimal digits of `n`, with leading zeros.
pub open spec fn hex_digits(n: nat, width: nat) -> Seq<char>
    decreases width,
{
    if width == 0 {
        Seq::empty()
    } else {
        hex_digits(n / 16, (width - 1) as nat).push(hex_char((n % 16) as int))
    }
}

/// The character of one hexadecimal digit.
pub fn hex_of(d: u8) -> (c: char)
    requires
        d < 16,
    ensures
        c == hex_char(d as int),
{
    if d == 0 {
        '0'
    } else if d == 1 {
        '1'
    } else if d == 2 {
        '2'
    } else if d == 3 {
        '3'
    } else if d == 4 {
        '4'
    } else if d == 5 {
        '5'
    } else if d == 6 {
        '6'
    } else if d == 7 {
        '7'
    } else if d == 8 {
        '8'
    } else if d == 9 {
        '9'
    } else if d == 10 {
        'a'
    } else if d == 11 {
        'b'
    } else if d == 12 {
        'c'
    } else if d == 13 {
        'd'
    } else if d == 14 {
        'e'
    } else {
        'f'
    }
}

/// Appends the last `width` hexadecimal digits of `n` to `out`.
pub fn push_hex(out: &mut Vec<char>, n: u64, width: u8)
    ensures
        final(out)@ == old(out)@ + hex_digits(n as nat, width as nat),
    decreases width,
{
    if width > 0 {
        push_hex(out, n / 16, width - 1);
        out.push(hex_of((n % 16) as u8));
        proof {
            assert(final(out)@ =~= old(out)@ + hex_digits(n as nat, width as nat));
        }
    } else {
        proof {
            assert(final(out)@ =~= old(out)@ + hex_digits(n as nat, width as nat));
        }
    }
}

/// The identifier of the session whose key hashes to `hash`: `asrv_` and the sixteen
/// hexadecimal digits of the hash.
pub open spec fn app_server_id_of(hash: u64) -> Seq<char> {
    "asrv_"@ + hex_digits(hash as nat, 16)
}

/// Writes the identifier of the session whose key hashes to `hash`.
pub fn app_server_id(hash: u64) -> (r: String)
    ensures
        r@ == app_server_id_of(hash),
{
    let mut out = chars_of("asrv_");
    push_hex(&mut out, hash, 16);
    string_of(&out)
}

/// The number that the `DefaultHasher` of `std`, made by `DefaultHasher::new`, gives for
/// the path `codex_home`.
pub uninterp spec fn home_hash(codex_home: Seq<char>) -> u64;

/// Hashes the key of a session.
///
/// Trusted: `Path::hash` into a hasher made by `DefaultHasher::new`, and
/// `Hasher::finish`. Every hasher that `DefaultHasher::new` makes is the same, so the
/// number is a function of the path alone; which number it is, `std` does not promise.
#[verifier::external_body]
fn hash_key(codex_home: &str) -> (r: u64)
    ensures
        r == home_hash(codex_home@),
{
    let mut hasher = std::collections::hash_map::DefaultHasher::new();
    std::path::Path::new(codex_home).hash(&mut hasher);
    hasher.finish()
}

/// The identifier of the session for a home of the vendor tool: the one that
/// `app_server_id` gives to the hash of the home. A home has the same identifier
/// whenever it is asked for.
pub fn app_server_id_for_key(codex_home: &str) -> (r: String)
    ensures
        r@ == app_server_id_of(home_hash(codex_home@)),
{
    let hash = hash_key(codex_home);
    app_server_id(hash)
}

/// What the pool knows of a session.
#[derive(Debug, Clone, PartialEq, Eq)]
pub struct PoolEntry {
    /// The identifier of the session.
    pub id: String,
    /// The home of the vendor tool, in its canonical form.
    pub codex_home: String,
    /// The profile that the session was started with.
    pub profile: Option<String>,
}

/// The view of a [`PoolEntry`].
pub struct PoolEntryV {
    pub id: Seq<char>,
    pub codex_home: Seq<char>,
    pub profile: Option<Seq<char>>,
}

impl View for PoolEntry {
    type V = PoolEntryV;

    open spec fn view(&self) -> PoolEntryV {
        PoolEntryV {
            id: self.id@,
            codex_home: self.codex_home@,
            profile: opt_view(self.profile),
        }
    }
}

/// The pool of the persistent sessions.
#[derive(Debug, Clone, PartialEq, Eq)]
pub struct CodexAppServerPool {
    entries: Vec<PoolEntry>,
    max_servers: usize,
}

/// The first index at or after `from` of a session with the identifier `id`; the number
/// of sessions if there is none.
pub open spec fn entry_index(entries: Seq<PoolEntryV>, id: Seq<char>, from: int) -> int
    decreases entries.len() - from,
{
    if from < 0 || from >= entries.len() {
        entries.len() as int
    } else if entries[from].id == id {
        from
    } else {
        entry_index(entries, id, from + 1)
    }
}

/// The first index at or after `from` of a session for the home `key`; the number of
/// sessions if there is none.
pub open spec fn home_index(entries: Seq<PoolEntryV>, key: Seq<char>, from: int) -> int
    decreases entries.len() - from,
{
    if from < 0 || from >= entries.len() {
        entries.len() as int
    } else if entries[from].codex_home == key {
        from
    } else {
        home_index(entries, key, from + 1)
    }
}

/// What the caller of `ensure` does next.
#[derive(Debug, Clone, PartialEq, Eq)]
pub enum EnsureAction {
    /// A session for the home runs with the wanted profile: use it.
    Reuse(String),
    /// Start a session under this identifier and register it. Where `shutdown_first` is
    /// set, a session of that identifier ran with another profile and was taken off the
    /// books: end it before the new one starts.
    Spawn { id: String, shutdown_first: bool },
    /// The pool is full. No session is ended to make room.
    Full(String),
}

/// The message of a full pool.
pub open spec fn pool_full_message(max: usize) -> Seq<char> {
    "codex app-server pool full (max="@ + decimal(max as nat)
        + "); shutdown an instance before starting a new one"@
}

/// What `ensure` decides for the session `id`, and the sessions that stay on the books.
pub enum EnsureV {
    Reuse,
    Spawn { shutdown_first: bool },
    Full,
}

/// The decision of `ensure` for the session `id` and the wanted profile. A session of
/// that identifier with the same profile is used again. One with another profile is to
/// be replaced. A new session is started where the pool, without the session to be
/// replaced, holds fewer sessions than it may; else the pool is full.
pub open spec fn ensure_decision(
    entries: Seq<PoolEntryV>,
    max: usize,
    id: Seq<char>,
    profile: Option<Seq<char>>,
) -> EnsureV {
    let at = entry_index(entries, id, 0);
    if 0 <= at < entries.len() {
        if normal_profile(entries[at].profile) == normal_profile(profile) {
            EnsureV::Reuse
        } else if entries.len() - 1 >= max {
            EnsureV::Full
        } else {
            EnsureV::Spawn { shutdown_first: true }
        }
    } else if entries.len() >= max {
        EnsureV::Full
    } else {
        EnsureV::Spawn { shutdown_first: false }
    }
}

/// The sessions that stay on the books after `ensure`: all of them, but for a session of
/// the identifier `id` that ran with another profile.
pub open spec fn entries_after_ensure(
    entries: Seq<PoolEntryV>,
    id: Seq<char>,
    profile: Option<Seq<char>>,
) -> Seq<PoolEntryV> {
    let at = entry_index(entries, id, 0);
    if 0 <= at < entries.len() && normal_profile(entries[at].profile) != normal_profile(profile) {
        entries.remove(at)
    } else {
        entries
    }
}

impl CodexAppServerPool {
    /// The sessions on the books.
    pub closed spec fn entries(self) -> Seq<PoolEntryV> {
        views(self.entries@)
    }

    /// How many sessions the pool may hold.
    pub closed spec fn capacity(self) -> usize {
        self.max_servers
    }

    /// An empty pool that may hold `max_servers` sessions.
    pub fn new(max_servers: usize) -> (r: Self)
        ensures
            r.entries() == Seq::<PoolEntryV>::empty(),
            r.capacity() == max_servers,
    {
        let r = CodexAppServerPool { entries: Vec::new(), max_servers: max_servers };
        proof {
            assert(r.entries() =~= Seq::<PoolEntryV>::empty());
        }
        r
    }

    /// How many sessions are on the books.
    pub fn len(&self) -> (r: usize)
        ensures
            r == self.entries().len(),
    {
        self.entries.len()
    }

    /// Finds the session with the identifier `id`.
    fn position(&self, id: &Vec<char>) -> (r: Option<usize>)
        ensures
            match r {
                Some(at) => at < self.entries().len() && entry_index(self.entries(), id@, 0) == at,
                None => entry_index(self.entries(), id@, 0) == self.entries().len(),
            },
    {
        let mut i: usize = 0;
        while i < self.entries.len()
            invariant
                i <= self.entries.len(),
                entry_index(self.entries(), id@, 0) == entry_index(self.entries(), id@, i as int),
            decreases self.entries.len() - i,
        {
            if string_is(&self.entries[i].id, id) {
                return Some(i);
            }
            i += 1;
        }
        None
    }

    /// The session with the identifier `app_server_id`, where it is on the books.
    pub fn get(&self, app_server_id: &str) -> (r: Option<&PoolEntry>)
        ensures
            match r {
                Some(e) => {
                    let at = entry_index(self.entries(), app_server_id@, 0);
                    0 <= at < self.entries().len() && e@ == self.entries()[at]
                },
                None => entry_index(self.entries(), app_server_id@, 0) == self.entries().len(),
            },
    {
        let id = chars_of(app_server_id);
        match self.position(&id) {
            Some(at) => Some(&self.entries[at]),
            None => None,
        }
    }

    /// The identifier under which the session for the home `codex_home` runs or is to
    /// run: the one on the books, else the one that the home hashes to.
    pub fn resolve_id(&self, codex_home: &str) -> (r: String)
        ensures
            home_index(self.entries(), codex_home@, 0) < self.entries().len() ==> r@
                == self.entries()[home_index(self.entries(), codex_home@, 0)].id,
            home_index(self.entries(), codex_home@, 0) == self.entries().len() ==> r@
                == app_server_id_of(home_hash(codex_home@)),
    {
        match self.id_for_home(codex_home) {
            Some(id) => id,
            None => app_server_id_for_key(codex_home),
        }
    }

    /// The identifier of the session for the home `codex_home`, where one is on the
    /// books.
    pub fn id_for_home(&self, codex_home: &str) -> (r: Option<String>)
        ensures
            match r {
                Some(id) => {
                    let at = home_index(self.entries(), codex_home@, 0);
                    0 <= at < self.entries().len() && id@ == self.entries()[at].id
                },
                None => home_index(self.entries(), codex_home@, 0) == self.entries().len(),
            },
    {
        let key = chars_of(codex_home);
        let mut i: usize = 0;
        while i < self.entries.len()
            invariant
                i <= self.entries.len(),
                home_index(self.entries(), codex_home@, 0) == home_index(
                    self.entries(),
                    codex_home@,
                    i as int,
                ),
                key@ == codex_home@,
            decreases self.entries.len() - i,
        {
            if string_is(&self.entries[i].codex_home, &key) {
                return Some(copy_string(&self.entries[i].id));
            }
            i += 1;
        }
        None
    }

    /// Decides how the session `app_server_id` comes to run with the wanted profile, and
    /// takes a session that is to be replaced off the books. No other session leaves the
    /// books, whatever the decision.
    pub fn ensure(&mut self, app_server_id: &str, profile: Option<&str>) -> (r: EnsureAction)
        ensures
            final(self).capacity() == old(self).capacity(),
            final(self).entries() == entries_after_ensure(
                old(self).entries(),
                app_server_id@,
                match profile {
                    Some(p) => Some(p@),
                    None => None,
                },
            ),
            match ensure_decision(
                old(self).entries(),
                old(self).capacity(),
                app_server_id@,
                match profile {
                    Some(p) => Some(p@),
                    None => None,
                },
            ) {
                EnsureV::Reuse => r matches EnsureAction::Reuse(id) && id@ == app_server_id@,
                EnsureV::Spawn { shutdown_first } => r matches EnsureAction::Spawn {
                    id,
                    shutdown_first: first,
                } && id@ == app_server_id@ && first == shutdown_first,
                EnsureV::Full => r matches EnsureAction::Full(m) && m@ == pool_full_message(
                    old(self).capacity(),
                ),
            },
    {
        let id = chars_of(app_server_id);
        let wanted = normalize_profile(profile);
        let mut replaced = false;
        match self.position(&id) {
            Some(at) => {
                let had = match &self.entries[at].profile {
                    Some(p) => normalize_profile(Some(p.as_str())),
                    None => None,
                };
                let same = match (&had, &wanted) {
                    (Some(a), Some(b)) => {
                        let bv = chars_of(b.as_str());
                        string_is(a, &bv)
                    },
                    (None, None) => true,
                    _ => false,
                };
                if same {
                    return EnsureAction::Reuse(string_of(&id));
                }
                let ghost before = self.entries@;
                let gone = self.entries.remove(at);
                proof {
                    assert(views(before.remove(at as int)) =~= views(before).remove(at as int));
                }
                replaced = true;
            },
            None => {},
        }
        if self.entries.len() >= self.max_servers {
            let mut m = chars_of("codex app-server pool full (max=");
            push_decimal(&mut m, self.max_servers as u64);
            append_str(&mut m, "); shutdown an instance before starting a new one");
            return EnsureAction::Full(string_of(&m));
        }
        EnsureAction::Spawn { id: string_of(&id), shutdown_first: replaced }
    }

    /// Puts a session that was started on the books.
    pub fn register(&mut self, app_server_id: &str, codex_home: &str, profile: Option<&str>)
        ensures
            final(self).capacity() == old(self).capacity(),
            final(self).entries() == old(self).entries().push(
                PoolEntryV {
                    id: app_server_id@,
                    codex_home: codex_home@,
                    profile: match profile {
                        Some(p) => Some(p@),
                        None => None,
                    },
                },
            ),
    {
        let entry = PoolEntry {
            id: owned(app_server_id),
            codex_home: owned(codex_home),
            profile: match profile {
                Some(p) => Some(owned(p)),
                None => None,
            },
        };
        proof {
            lemma_views_push(self.entries@, entry);
        }
        self.entries.push(entry);
    }

    /// Takes the session `app_server_id` off the books. Returns whether it was on them,
    /// which is when the caller has a session to end.
    pub fn shutdown(&mut self, app_server_id: &str) -> (r: bool)
        ensures
            final(self).capacity() == old(self).capacity(),
            r == (entry_index(old(self).entries(), app_server_id@, 0) < old(self).entries().len()),
            final(self).entries() == if r {
                old(self).entries().remove(entry_index(old(self).entries(), app_server_id@, 0))
            } else {
                old(self).entries()
            },
    {
        let id = chars_of(app_server_id);
        match self.position(&id) {
            Some(at) => {
                let ghost before = self.entries@;
                let gone = self.entries.remove(at);
                proof {
                    assert(views(before.remove(at as int)) =~= views(before).remove(at as int));
                }
                true
            },
            None => false,
        }
    }

    /// Takes every session off the books. Returns their identifiers, which are the
    /// sessions that the caller has to end.
    pub fn shutdown_all(&mut self) -> (ids: Vec<String>)
        ensures
            final(self).capacity() == old(self).capacity(),
            final(self).entries() == Seq::<PoolEntryV>::empty(),
            views(ids@) == Seq::new(old(self).entries().len(), |i: int| old(self).entries()[i].id),
    {
        let mut ids: Vec<String> = Vec::new();
        let mut i: usize = 0;
        while i < self.entries.len()
            invariant
                i <= self.entries.len(),
                *self == *old(self),
                views(ids@) == Seq::new(i as nat, |k: int| old(self).entries()[k].id),
            decreases self.entries.len() - i,
        {
            let id = copy_string(&self.entries[i].id);
            proof {
                lemma_views_push(ids@, id);
                assert(views(ids@).push(id@) =~= Seq::new(
                    (i + 1) as nat,
                    |k: int| old(self).entries()[k].id,
                ));
            }
            ids.push(id);
            i += 1;
        }
        self.entries = Vec::new();
        proof {
            assert(self.entries() =~= Seq::<PoolEntryV>::empty());
        }
        ids
    }

    /// Takes the session for the home `codex_home` off the books. Returns its identifier
    /// where there was one.
    pub fn shutdown_by_codex_home(&mut self, codex_home: &str) -> (r: Option<String>)
        ensures
            final(self).capacity() == old(self).capacity(),
            match r {
                Some(id) => {
                    let at = home_index(old(self).entries(), codex_home@, 0);
                    &&& 0 <= at < old(self).entries().len()
                    &&& id@ == old(self).entries()[at].id
                    &&& final(self).entries() == old(self).entries().remove(
                        entry_index(old(self).entries(), id@, 0),
                    )
                },
                None => home_index(old(self).entries(), codex_home@, 0) == old(
                    self,
                ).entries().len() && final(self).entries() == old(self).entries(),
            },
    {
        match self.id_for_home(codex_home) {
            Some(id) => {
                let ghost at = home_index(self.entries(), codex_home@, 0);
                proof {
                    lemma_entry_index_finds(self.entries(), id@, at);
                }
                let was = self.shutdown(id.as_str());
                Some(id)
            },
            None => None,
        }
    }
}

/// A session that is on the books is found under its identifier.
pub proof fn lemma_entry_index_finds(entries: Seq<PoolEntryV>, id: Seq<char>, at: int)
    requires
        0 <= at < entries.len(),
        entries[at].id == id,
    ensures
        0 <= entry_index(entries, id, 0) <= at,
{
    lemma_entry_index_from(entries, id, 0, at);
}

/// Searching from `from` finds a session of the identifier at or before `at`.
proof fn lemma_entry_index_from(entries: Seq<PoolEntryV>, id: Seq<char>, from: int, at: int)
    requires
        0 <= from <= at < entries.len(),
        entries[at].id == id,
    ensures
        from <= entry_index(entries, id, from) <= at,
    decreases at - from,
{
    if entries[from].id != id {
        lemma_entry_index_from(entries, id, from + 1, at);
    }
}

/// No unrelated session is evicted: whatever `ensure` decides for the session `id`, every
/// session of another identifier is on the books afterwards as it was before.
pub proof fn law_ensure_evicts_nothing(
    entries: Seq<PoolEntryV>,
    id: Seq<char>,
    profile: Option<Seq<char>>,
    k: int,
)
    requires
        0 <= k < entries.len(),
        entries[k].id != id,
    ensures
        exists|j: int|
            0 <= j < entries_after_ensure(entries, id, profile).len() && entries_after_ensure(
                entries,
                id,
                profile,
            )[j] == entries[k],
{
    let after = entries_after_ensure(entries, id, profile);
    let at = entry_index(entries, id, 0);
    if 0 <= at < entries.len() && normal_profile(entries[at].profile) != normal_profile(profile) {
        lemma_entry_index_is_id(entries, id, 0);
        if k < at {
            assert(after[k] == entries[k]);
        } else {
            assert(after[k - 1] == entries[k]);
        }
    } else {
        assert(after[k] == entries[k]);
    }
}

/// The index that `entry_index` gives names a session of the identifier where it is an
/// index.
pub proof fn lemma_entry_index_is_id(entries: Seq<PoolEntryV>, id: Seq<char>, from: int)
    requires
        0 <= from <= entries.len(),
    ensures
        from <= entry_index(entries, id, from) <= entries.len(),
        entry_index(entries, id, from) < entries.len() ==> entries[entry_index(
            entries,
            id,
            from,
        )].id == id,
    decreases entries.len() - from,
{
    if from < entries.len() && entries[from].id != id {
        lemma_entry_index_is_id(entries, id, from + 1);
    }
}

} // verus!
