//! The environment of the worker program: reading the variables that a login shell
//! prints, completing the search path, and choosing the program to run.

use vstd::prelude::*;
use crate::text::{append_str, chars_of, is_blank, is_blank_text, owned, string_of, views};
use crate::watch::{file_name, file_name_of, paths_equal, same_place};

verus! {

/// What a diagnosis of the environment reports: the search path and where it came from,
/// the program that was found on it, the program that the environment names instead,
/// the shell that was asked, and how many variables the environment holds.
#[derive(Debug, Clone, PartialEq, Eq)]
pub struct CodexDiagnostics {
    pub path: String,
    pub resolved_codex_bin: Option<String>,
    pub env_override: Option<String>,
    pub path_source: String,
    pub shell: Option<String>,
    pub env_source: String,
    pub env_count: usize,
}

/// The variable that names the worker program.
pub fn codex_bin_env() -> (r: &'static str)
    ensures
        r@ == "AGENTMESH_CODEX_BIN"@,
{
    "AGENTMESH_CODEX_BIN"
}

/// How many seconds a request to a persistent worker may take.
pub const DEFAULT_TIMEOUT_SECS: u64 = 30;

/// How many seconds the shell may take to print its environment.
pub const SHELL_ENV_TIMEOUT_SECS: u64 = 2;

/// The program that the environment names: the value of the variable, unless it is
/// blank.
pub fn env_override(value: Option<String>) -> (r: Option<String>)
    ensures
        r == match value {
            Some(v) if !is_blank(v@) => Some(v),
            _ => None,
        },
{
    match value {
        Some(v) => {
            let blank = is_blank_text(&chars_of(v.as_str()));
            if blank {
                None
            } else {
                Some(v)
            }
        },
        None => None,
    }
}

/// `needle` stands in `haystack` at `at`.
pub open spec fn bytes_at(haystack: Seq<u8>, needle: Seq<u8>, at: int) -> bool {
    0 <= at && at + needle.len() <= haystack.len() && haystack.subrange(
        at,
        at + needle.len(),
    ) == needle
}

/// The first place at or after `from` where `needle` stands in `haystack`.
pub open spec fn first_bytes_at(haystack: Seq<u8>, needle: Seq<u8>, from: int) -> Option<int>
    decreases haystack.len() - from,
{
    if from < 0 || from + needle.len() > haystack.len() {
        None
    } else if bytes_at(haystack, needle, from) {
        Some(from)
    } else if from >= haystack.len() {
        None
    } else {
        first_bytes_at(haystack, needle, from + 1)
    }
}

/// Tells whether `needle` stands in `haystack` at `at`.
fn bytes_match(haystack: &Vec<u8>, needle: &Vec<u8>, at: usize) -> (r: bool)
    requires
        at + needle.len() <= haystack.len(),
    ensures
        r == bytes_at(haystack@, needle@, at as int),
{
    let mut k: usize = 0;
    while k < needle.len()
        invariant
            k <= needle.len(),
            at + needle.len() <= haystack.len(),
            forall|j: int| 0 <= j < k ==> haystack@[at + j] == needle@[j],
        decreases needle.len() - k,
    {
        if haystack[at + k] != needle[k] {
            proof {
                assert(haystack@.subrange(at as int, at + needle.len())[k as int] != needle@[k as int]);
            }
            return false;
        }
        k += 1;
    }
    proof {
        assert(haystack@.subrange(at as int, at + needle.len()) =~= needle@);
    }
    true
}

/// Finds the first place where `needle` stands in `haystack`. The empty needle stands
/// at the start.
pub fn find_bytes(haystack: &Vec<u8>, needle: &Vec<u8>) -> (r: Option<usize>)
    ensures
        match r {
            Some(i) => first_bytes_at(haystack@, needle@, 0) == Some(i as int) && i + needle.len()
                <= haystack.len(),
            None => first_bytes_at(haystack@, needle@, 0) is None,
        },
{
    if needle.len() > haystack.len() {
        return None;
    }
    let last = haystack.len() - needle.len();
    let mut i: usize = 0;
    while i < last
        invariant
            i <= last,
            last == haystack.len() - needle.len(),
            needle.len() <= haystack.len(),
            first_bytes_at(haystack@, needle@, 0) == first_bytes_at(haystack@, needle@, i as int),
        decreases last - i,
    {
        if bytes_match(haystack, needle, i) {
            return Some(i);
        }
        i += 1;
    }
    if bytes_match(haystack, needle, last) {
        Some(last)
    } else {
        proof {
            assert(first_bytes_at(haystack@, needle@, last + 1) is None);
        }
        None
    }
}

/// The option that makes a shell read the files of a login and run a command: shells
/// whose program is named `zsh` or `bash` take `-lic`; no other shell is asked.
pub open spec fn shell_flag_of(shell: Seq<char>) -> Option<Seq<char>> {
    if file_name(shell) == Some("zsh"@) || file_name(shell) == Some("bash"@) {
        Some("-lic"@)
    } else {
        None
    }
}

/// The option that makes a shell read the files of a login and run a command.
pub fn shell_flag(shell: &str) -> (r: Option<&'static str>)
    ensures
        match r {
            Some(flag) => shell_flag_of(shell@) == Some(flag@),
            None => shell_flag_of(shell@) is None,
        },
{
    match file_name_of(&chars_of(shell)) {
        Some(name) => {
            let zsh = chars_of("zsh");
            let bash = chars_of("bash");
            if crate::text::text_eq(&name, &zsh) || crate::text::text_eq(&name, &bash) {
                Some("-lic")
            } else {
                None
            }
        },
        None => None,
    }
}

/// The command that prints the environment between two marks, each variable followed by
/// a zero byte.
pub fn snapshot_command() -> (r: &'static str)
    ensures
        r@ == "printf '__AGENTMESH_ENV_BEGIN__\\0'; /usr/bin/env -0; printf '__AGENTMESH_ENV_END__\\0'"@,
{
    "printf '__AGENTMESH_ENV_BEGIN__\\0'; /usr/bin/env -0; printf '__AGENTMESH_ENV_END__\\0'"
}

/// A mark as bytes: the characters of its name, each as one byte, and a zero byte.
pub open spec fn mark_bytes(name: Seq<char>) -> Seq<u8> {
    Seq::new(name.len(), |i: int| name[i] as u8).push(0u8)
}

/// The name of the mark before the variables.
pub open spec fn begin_name() -> Seq<char> {
    "__AGENTMESH_ENV_BEGIN__"@
}

/// The name of the mark after the variables.
pub open spec fn end_name() -> Seq<char> {
    "__AGENTMESH_ENV_END__"@
}

/// Writes a mark as bytes.
fn mark(name: &str) -> (out: Vec<u8>)
    ensures
        out@ == mark_bytes(name@),
{
    let chars = chars_of(name);
    let mut out: Vec<u8> = Vec::new();
    let mut i: usize = 0;
    while i < chars.len()
        invariant
            i <= chars.len(),
            chars@ == name@,
            out@ == Seq::new(i as nat, |k: int| name@[k] as u8),
        decreases chars.len() - i,
    {
        out.push(chars[i] as u8);
        proof {
            assert(out@ =~= Seq::new((i + 1) as nat, |k: int| name@[k] as u8));
        }
        i += 1;
    }
    out.push(0u8);
    out
}

/// Why the environment of the shell could not be read.
#[derive(Debug, Clone, PartialEq, Eq)]
pub enum EnvSyncError {
    /// The shell is none of those that are asked.
    UnsupportedShell { shell: String },
    /// The shell did not answer in time.
    TimedOut,
    /// The output lacks the mark before the variables.
    MissingBegin,
    /// The output lacks the mark after the variables.
    MissingEnd,
}

/// The message of an error.
pub open spec fn env_sync_message(err: EnvSyncError) -> Seq<char> {
    match err {
        EnvSyncError::UnsupportedShell { shell } => "unsupported shell for env sync: "@ + shell@,
        EnvSyncError::TimedOut => "shell env sync timed out after 2s"@,
        EnvSyncError::MissingBegin => "shell env sync did not include begin sentinel"@,
        EnvSyncError::MissingEnd => "shell env sync did not include end sentinel"@,
    }
}

impl EnvSyncError {
    /// The message of the error.
    pub fn message(&self) -> (r: String)
        ensures
            r@ == env_sync_message(*self),
    {
        match self {
            EnvSyncError::UnsupportedShell { shell } => {
                let mut out = chars_of("unsupported shell for env sync: ");
                append_str(&mut out, shell.as_str());
                string_of(&out)
            },
            EnvSyncError::TimedOut => owned("shell env sync timed out after 2s"),
            EnvSyncError::MissingBegin => owned("shell env sync did not include begin sentinel"),
            EnvSyncError::MissingEnd => owned("shell env sync did not include end sentinel"),
        }
    }
}

/// The first place at or after `from` that holds an equals sign; the length of the
/// record where none does.
pub open spec fn equals_index(record: Seq<u8>, from: int) -> int
    decreases record.len() - from,
{
    if from < 0 || from >= record.len() {
        record.len() as int
    } else if record[from] == 61u8 {
        from
    } else {
        equals_index(record, from + 1)
    }
}

/// The variable that a record sets: the name before the first equals sign and the value
/// after it. A record without an equals sign, or with an empty name, sets none.
pub open spec fn entry_of(record: Seq<u8>) -> Seq<(Seq<u8>, Seq<u8>)> {
    let eq = equals_index(record, 0);
    if eq == 0 || eq >= record.len() {
        Seq::empty()
    } else {
        seq![(record.take(eq), record.skip(eq + 1))]
    }
}

/// The reading of the first `n` bytes: the variables of the records that have ended,
/// and where the record that has not begins. A record ends at a zero byte.
pub open spec fn records_upto(bytes: Seq<u8>, n: int) -> (Seq<(Seq<u8>, Seq<u8>)>, int)
    decreases n,
{
    if n <= 0 || n > bytes.len() {
        (Seq::empty(), 0)
    } else {
        let before = records_upto(bytes, n - 1);
        if bytes[n - 1] == 0u8 {
            (before.0 + entry_of(bytes.subrange(before.1, n - 1)), n)
        } else {
            before
        }
    }
}

/// The variables that the bytes set, in their order.
pub open spec fn entries_of(bytes: Seq<u8>) -> Seq<(Seq<u8>, Seq<u8>)> {
    let read = records_upto(bytes, bytes.len() as int);
    read.0 + entry_of(bytes.subrange(read.1, bytes.len() as int))
}

/// The variables of a list, as values.
pub open spec fn entries_view(entries: Seq<(Vec<u8>, Vec<u8>)>) -> Seq<(Seq<u8>, Seq<u8>)> {
    Seq::new(entries.len(), |i: int| (entries[i].0@, entries[i].1@))
}

/// Adds the variable of the record `bytes[lo..hi]` to the list.
fn push_entry(out: &mut Vec<(Vec<u8>, Vec<u8>)>, bytes: &Vec<u8>, lo: usize, hi: usize)
    requires
        lo <= hi <= bytes.len(),
    ensures
        entries_view(final(out)@) == entries_view(old(out)@) + entry_of(
            bytes@.subrange(lo as int, hi as int),
        ),
{
    let ghost record = bytes@.subrange(lo as int, hi as int);
    let ghost before = out@;
    let mut eq: usize = lo;
    while eq < hi && bytes[eq] != 61u8
        invariant
            lo <= eq <= hi <= bytes.len(),
            record == bytes@.subrange(lo as int, hi as int),
            equals_index(record, 0) == equals_index(record, eq - lo),
        decreases hi - eq,
    {
        proof {
            assert(record[eq - lo] == bytes@[eq as int]);
        }
        eq += 1;
    }
    proof {
        if eq < hi {
            assert(record[eq - lo] == bytes@[eq as int]);
        }
        assert(equals_index(record, 0) == eq - lo);
    }
    if eq == lo || eq >= hi {
        proof {
            assert(entries_view(before) + Seq::<(Seq<u8>, Seq<u8>)>::empty() =~= entries_view(
                before,
            ));
        }
        return ;
    }
    let mut name: Vec<u8> = Vec::new();
    let mut i: usize = lo;
    while i < eq
        invariant
            lo <= i <= eq < hi <= bytes.len(),
            name@ == bytes@.subrange(lo as int, i as int),
        decreases eq - i,
    {
        name.push(bytes[i]);
        proof {
            assert(name@ =~= bytes@.subrange(lo as int, i + 1));
        }
        i += 1;
    }
    let mut value: Vec<u8> = Vec::new();
    let mut j: usize = eq + 1;
    while j < hi
        invariant
            eq + 1 <= j <= hi <= bytes.len(),
            value@ == bytes@.subrange(eq + 1, j as int),
        decreases hi - j,
    {
        value.push(bytes[j]);
        proof {
            assert(value@ =~= bytes@.subrange(eq + 1, j + 1));
        }
        j += 1;
    }
    proof {
        assert(name@ =~= record.take(eq - lo));
        assert(value@ =~= record.skip(eq - lo + 1));
    }
    out.push((name, value));
    proof {
        assert(entries_view(out@) =~= entries_view(before) + entry_of(record));
    }
}

/// Reads the variables that the bytes `bytes[lo..hi]` set.
pub fn read_entries(bytes: &Vec<u8>, lo: usize, hi: usize) -> (out: Vec<(Vec<u8>, Vec<u8>)>)
    requires
        lo <= hi <= bytes.len(),
    ensures
        entries_view(out@) == entries_of(bytes@.subrange(lo as int, hi as int)),
{
    let ghost region = bytes@.subrange(lo as int, hi as int);
    let mut out: Vec<(Vec<u8>, Vec<u8>)> = Vec::new();
    let mut start: usize = lo;
    let mut i: usize = lo;
    proof {
        assert(entries_view(out@) =~= records_upto(region, 0).0);
    }
    while i < hi
        invariant
            lo <= start <= i <= hi <= bytes.len(),
            region == bytes@.subrange(lo as int, hi as int),
            entries_view(out@) == records_upto(region, i - lo).0,
            start - lo == records_upto(region, i - lo).1,
        decreases hi - i,
    {
        proof {
            assert(region[i - lo] == bytes@[i as int]);
        }
        if bytes[i] == 0u8 {
            proof {
                assert(bytes@.subrange(start as int, i as int) =~= region.subrange(
                    start - lo,
                    i - lo,
                ));
            }
            push_entry(&mut out, bytes, start, i);
            start = i + 1;
        }
        i += 1;
    }
    proof {
        assert(bytes@.subrange(start as int, hi as int) =~= region.subrange(
            start - lo,
            region.len() as int,
        ));
    }
    push_entry(&mut out, bytes, start, hi);
    out
}

/// The variables that the output of the shell sets: those between the end of the first
/// mark and the first mark of the end after it.
pub open spec fn snapshot_of(stdout: Seq<u8>) -> Result<Seq<(Seq<u8>, Seq<u8>)>, EnvSyncError> {
    match first_bytes_at(stdout, mark_bytes(begin_name()), 0) {
        None => Err(EnvSyncError::MissingBegin),
        Some(b) => {
            let start = b + mark_bytes(begin_name()).len();
            match first_bytes_at(stdout.skip(start), mark_bytes(end_name()), 0) {
                None => Err(EnvSyncError::MissingEnd),
                Some(e) => Ok(entries_of(stdout.subrange(start, start + e))),
            }
        },
    }
}

/// Reads the variables that the output of the shell sets. Anything that the shell
/// printed before the first mark or after the second is passed over.
pub fn parse_env_snapshot(stdout: &Vec<u8>) -> (r: Result<Vec<(Vec<u8>, Vec<u8>)>, EnvSyncError>)
    ensures
        match snapshot_of(stdout@) {
            Ok(entries) => r matches Ok(v) && entries_view(v@) == entries,
            Err(e) => r == Err::<Vec<(Vec<u8>, Vec<u8>)>, EnvSyncError>(e),
        },
{
    let begin = mark("__AGENTMESH_ENV_BEGIN__");
    let end = mark("__AGENTMESH_ENV_END__");
    let start = match find_bytes(stdout, &begin) {
        Some(pos) => pos + begin.len(),
        None => {
            return Err(EnvSyncError::MissingBegin);
        },
    };
    let mut rest: Vec<u8> = Vec::new();
    let mut i: usize = start;
    while i < stdout.len()
        invariant
            start <= i <= stdout.len(),
            rest@ == stdout@.subrange(start as int, i as int),
        decreases stdout.len() - i,
    {
        rest.push(stdout[i]);
        proof {
            assert(rest@ =~= stdout@.subrange(start as int, i + 1));
        }
        i += 1;
    }
    proof {
        assert(rest@ =~= stdout@.skip(start as int));
    }
    match find_bytes(&rest, &end) {
        Some(pos) => Ok(read_entries(stdout, start, start + pos)),
        None => Err(EnvSyncError::MissingEnd),
    }
}

/// The value that the last variable named `name` among the first `n` has.
pub open spec fn value_among(entries: Seq<(Seq<u8>, Seq<u8>)>, name: Seq<u8>, n: int) -> Option<
    Seq<u8>,
>
    decreases n,
{
    if n <= 0 || n > entries.len() {
        None
    } else if entries[n - 1].0 == name {
        Some(entries[n - 1].1)
    } else {
        value_among(entries, name, n - 1)
    }
}

/// Looks up the value of a variable: where several entries name it, the last one counts.
pub fn env_value<'a>(entries: &'a Vec<(Vec<u8>, Vec<u8>)>, name: &Vec<u8>) -> (r: Option<
    &'a Vec<u8>,
>)
    ensures
        match r {
            Some(v) => value_among(entries_view(entries@), name@, entries@.len() as int) == Some(
                v@,
            ),
            None => value_among(entries_view(entries@), name@, entries@.len() as int) is None,
        },
{
    let mut i: usize = entries.len();
    while i > 0
        invariant
            i <= entries.len(),
            value_among(entries_view(entries@), name@, entries@.len() as int) == value_among(
                entries_view(entries@),
                name@,
                i as int,
            ),
        decreases i,
    {
        i -= 1;
        let same = bytes_equal(&entries[i].0, name);
        if same {
            return Some(&entries[i].1);
        }
    }
    None
}

/// Tells whether two byte strings are equal.
fn bytes_equal(a: &Vec<u8>, b: &Vec<u8>) -> (r: bool)
    ensures
        r == (a@ == b@),
{
    if a.len() != b.len() {
        return false;
    }
    let r = bytes_match(a, b, 0);
    proof {
        assert(a@.subrange(0, a@.len() as int) =~= a@);
    }
    r
}

/// Tells whether one of the first `n` directories names the same place as `dir`.
pub open spec fn has_dir(dirs: Seq<Seq<char>>, dir: Seq<char>, n: int) -> bool
    decreases n,
{
    if n <= 0 || n > dirs.len() {
        false
    } else {
        same_place(dirs[n - 1], dir) || has_dir(dirs, dir, n - 1)
    }
}

/// The search path with the first `n` extra directories: each is added at the end
/// unless the path so far holds a directory that names the same place.
pub open spec fn with_search_dirs(paths: Seq<Seq<char>>, extras: Seq<Seq<char>>, n: int) -> Seq<
    Seq<char>,
>
    decreases n,
{
    if n <= 0 || n > extras.len() {
        paths
    } else {
        let so_far = with_search_dirs(paths, extras, n - 1);
        if has_dir(so_far, extras[n - 1], so_far.len() as int) {
            so_far
        } else {
            so_far.push(extras[n - 1])
        }
    }
}

/// Tells whether the search path holds a directory.
fn holds_dir(dirs: &Vec<String>, dir: &Vec<char>) -> (r: bool)
    ensures
        r == has_dir(views(dirs@), dir@, dirs@.len() as int),
{
    let mut i: usize = dirs.len();
    while i > 0
        invariant
            i <= dirs.len(),
            has_dir(views(dirs@), dir@, dirs@.len() as int) == has_dir(views(dirs@), dir@, i as int),
        decreases i,
    {
        i -= 1;
        if paths_equal(&chars_of(dirs[i].as_str()), dir) {
            return true;
        }
    }
    false
}

/// Completes the search path with the directories that it lacks.
pub fn add_search_dirs(paths: Vec<String>, extras: &Vec<String>) -> (out: Vec<String>)
    ensures
        views(out@) == with_search_dirs(views(paths@), views(extras@), extras@.len() as int),
{
    let mut out = paths;
    let mut i: usize = 0;
    while i < extras.len()
        invariant
            i <= extras.len(),
            views(out@) == with_search_dirs(views(paths@), views(extras@), i as int),
        decreases extras.len() - i,
    {
        let dir = chars_of(extras[i].as_str());
        if !holds_dir(&out, &dir) {
            let copy = string_of(&dir);
            proof {
                crate::text::lemma_views_push(out@, copy);
            }
            out.push(copy);
        }
        i += 1;
    }
    out
}

/// The program to run: the one that the environment names, where it names a file that
/// exists; else the one that was found on the search path.
pub open spec fn chosen_program(
    named: Option<Seq<char>>,
    named_is_file: bool,
    found: Option<Seq<char>>,
) -> Result<Seq<char>, Seq<char>> {
    match named {
        Some(bin) => if named_is_file {
            Ok(bin)
        } else {
            Err("AGENTMESH_CODEX_BIN points to a missing file: "@ + bin)
        },
        None => match found {
            Some(bin) => Ok(bin),
            None => Err(
                "codex not found on PATH. Hint (macOS): GUI apps started from Finder may not inherit your shell PATH. Set AGENTMESH_CODEX_BIN=/opt/homebrew/bin/codex or launch from Terminal."@,
            ),
        },
    }
}

/// Chooses the program to run. A named program that is no file is an error, whatever
/// the search path holds.
pub fn resolve_codex_bin(named: Option<String>, named_is_file: bool, found: Option<String>) -> (r:
    Result<String, String>)
    ensures
        match chosen_program(crate::text::opt_view(named), named_is_file, crate::text::opt_view(found)) {
            Ok(bin) => r matches Ok(b) && b@ == bin,
            Err(msg) => r matches Err(m) && m@ == msg,
        },
{
    match named {
        Some(bin) => {
            if named_is_file {
                Ok(bin)
            } else {
                let mut out = chars_of("AGENTMESH_CODEX_BIN points to a missing file: ");
                append_str(&mut out, bin.as_str());
                Err(string_of(&out))
            }
        },
        None => match found {
            Some(bin) => Ok(bin),
            None => Err(
                owned(
                    "codex not found on PATH. Hint (macOS): GUI apps started from Finder may not inherit your shell PATH. Set AGENTMESH_CODEX_BIN=/opt/homebrew/bin/codex or launch from Terminal.",
                ),
            ),
        },
    }
}

/// Where a program of the given name would lie in each directory of the search path.
pub fn executable_candidates(name: &str, dirs: &Vec<String>) -> (out: Vec<String>)
    ensures
        out@.len() == dirs@.len(),
        forall|i: int|
            0 <= i < dirs@.len() ==> (#[trigger] out@[i])@ == crate::paths::joined(dirs@[i]@, name@),
{
    let mut out: Vec<String> = Vec::new();
    let mut i: usize = 0;
    while i < dirs.len()
        invariant
            i <= dirs.len(),
            out@.len() == i,
            forall|k: int|
                0 <= k < i ==> (#[trigger] out@[k])@ == crate::paths::joined(dirs@[k]@, name@),
        decreases dirs.len() - i,
    {
        out.push(crate::paths::join_path(dirs[i].as_str(), name));
        i += 1;
    }
    out
}

/// The first of the first `n` candidates that is an executable file.
pub open spec fn first_executable(candidates: Seq<Seq<char>>, executable: Seq<bool>, from: int)
    -> Option<Seq<char>>
    decreases candidates.len() - from,
{
    if from < 0 || from >= candidates.len() {
        None
    } else if from < executable.len() && executable[from] {
        Some(candidates[from])
    } else {
        first_executable(candidates, executable, from + 1)
    }
}

/// Finds a program on the search path: the first candidate of which the caller found
/// that it is an executable file. `executable` holds what the caller found of each
/// candidate, in their order; a candidate without an entry counts as none.
pub fn find_executable_in_paths(candidates: &Vec<String>, executable: &Vec<bool>) -> (r: Option<
    String,
>)
    ensures
        crate::text::opt_view(r) == first_executable(views(candidates@), executable@, 0),
{
    let mut i: usize = 0;
    while i < candidates.len()
        invariant
            i <= candidates.len(),
            first_executable(views(candidates@), executable@, 0) == first_executable(
                views(candidates@),
                executable@,
                i as int,
            ),
        decreases candidates.len() - i,
    {
        if i < executable.len() && executable[i] {
            return Some(crate::text::copy_string(&candidates[i]));
        }
        i += 1;
    }
    None
}

/// The shell that is asked where the environment names none.
pub fn default_shell(macos: bool) -> (r: &'static str)
    ensures
        r@ == if macos {
            "/bin/zsh"@
        } else {
            "/bin/sh"@
        },
{
    if macos {
        "/bin/zsh"
    } else {
        "/bin/sh"
    }
}

/// The directories in which the vendor tool is usually installed: those of the package
/// managers on macOS, then the two below the home of the user, where that is known.
pub open spec fn usual_dirs(macos: bool, home: Option<Seq<char>>) -> Seq<Seq<char>> {
    let system = if macos {
        seq!["/opt/homebrew/bin"@, "/usr/local/bin"@]
    } else {
        Seq::empty()
    };
    match home {
        Some(h) => system.push(crate::paths::joined(crate::paths::joined(h, ".local"@), "bin"@)).push(
            crate::paths::joined(crate::paths::joined(h, ".cargo"@), "bin"@),
        ),
        None => system,
    }
}

/// Lists the directories in which the vendor tool is usually installed.
pub fn default_search_dirs(macos: bool, home: Option<&str>) -> (out: Vec<String>)
    ensures
        views(out@) == usual_dirs(
            macos,
            match home {
                Some(h) => Some(h@),
                None => None,
            },
        ),
{
    let mut out: Vec<String> = Vec::new();
    proof {
        assert(views(out@) =~= Seq::<Seq<char>>::empty());
    }
    if macos {
        let a = owned("/opt/homebrew/bin");
        let b = owned("/usr/local/bin");
        proof {
            crate::text::lemma_views_push(out@, a);
            crate::text::lemma_views_push(out@.push(a), b);
            assert(Seq::<Seq<char>>::empty().push(a@).push(b@) =~= seq![
                "/opt/homebrew/bin"@,
                "/usr/local/bin"@,
            ]);
        }
        out.push(a);
        out.push(b);
    }
    match home {
        Some(h) => {
            let a = crate::paths::join_path2(h, ".local", "bin");
            let b = crate::paths::join_path2(h, ".cargo", "bin");
            proof {
                crate::text::lemma_views_push(out@, a);
                crate::text::lemma_views_push(out@.push(a), b);
            }
            out.push(a);
            out.push(b);
        },
        None => {},
    }
    out
}

/// The home of the vendor tool: what the environment names as such, unless that is
/// blank; else `.codex` in the home of the user, unless that is blank; else `/.codex`.
pub open spec fn codex_home_of(named: Option<Seq<char>>, home: Option<Seq<char>>) -> Seq<char> {
    match named {
        Some(v) if !is_blank(v) => v,
        _ => match home {
            Some(h) if !is_blank(h) => crate::paths::joined(h, ".codex"@),
            _ => "/.codex"@,
        },
    }
}

/// Finds the home of the vendor tool from the values of `CODEX_HOME` and `HOME`.
pub fn resolve_codex_home(named: Option<&str>, home: Option<&str>) -> (r: String)
    ensures
        r@ == codex_home_of(
            match named {
                Some(v) => Some(v@),
                None => None,
            },
            match home {
                Some(h) => Some(h@),
                None => None,
            },
        ),
{
    if let Some(v) = named {
        if !is_blank_text(&chars_of(v)) {
            return owned(v);
        }
    }
    if let Some(h) = home {
        if !is_blank_text(&chars_of(h)) {
            return crate::paths::join_path(h, ".codex");
        }
    }
    owned("/.codex")
}

/// The home directory of the user: what `HOME` names, else what `USERPROFILE` names.
pub open spec fn user_home(home: Option<Seq<char>>, user_profile: Option<Seq<char>>) -> Option<
    Seq<char>,
> {
    match home {
        Some(h) => Some(h),
        None => user_profile,
    }
}

/// The default home of the vendor tool, `.codex` in the home directory of the user. An
/// environment that names no home directory is an error.
pub fn default_codex_home_dir(home: Option<&str>, user_profile: Option<&str>) -> (r: Result<
    String,
    String,
>)
    ensures
        match user_home(
            match home {
                Some(h) => Some(h@),
                None => None,
            },
            match user_profile {
                Some(h) => Some(h@),
                None => None,
            },
        ) {
            Some(h) => r matches Ok(p) && p@ == crate::paths::joined(h, ".codex"@),
            None => r matches Err(m) && m@ == "HOME directory not found"@,
        },
{
    let base: Option<&str> = match home {
        Some(h) => Some(h),
        None => user_profile,
    };
    match base {
        Some(h) => Ok(crate::paths::join_path(h, ".codex")),
        None => Err(owned("HOME directory not found")),
    }
}

/// The file of the settings of the vendor tool, `config.toml` in its default home.
pub fn codex_config_path(home: Option<&str>, user_profile: Option<&str>) -> (r: Result<
    String,
    String,
>)
    ensures
        match user_home(
            match home {
                Some(h) => Some(h@),
                None => None,
            },
            match user_profile {
                Some(h) => Some(h@),
                None => None,
            },
        ) {
            Some(h) => r matches Ok(p) && p@ == crate::paths::joined(
                crate::paths::joined(h, ".codex"@),
                "config.toml"@,
            ),
            None => r matches Err(m) && m@ == "HOME directory not found"@,
        },
{
    match default_codex_home_dir(home, user_profile) {
        Ok(dir) => Ok(crate::paths::join_path(dir.as_str(), "config.toml")),
        Err(m) => Err(m),
    }
}

} // verus!
