//! Patches in the form that the vendor tool applies, and their rendering as unified
//! diffs with line numbers.

use vstd::prelude::*;
use crate::json::{Json, JsonV};
use crate::paths::{is_absolute, join_path, joined};
use crate::split::{decimal, lines, push_decimal_wide, split_lines, texts};
use crate::text::{
    append_str, append_text, chars_of, copy_string, has_prefix, lemma_views_push, lowercase,
    lowercased, opt_view, owned, starts_with_str, string_is, string_of, sub_text, views,
};

verus! {

/// What a patch does to a file.
#[derive(Debug, Clone, Copy, PartialEq, Eq, Structural)]
pub enum PatchKind {
    Add,
    Delete,
    Update,
}

/// What a line of a hunk does.
#[derive(Debug, Clone, Copy, PartialEq, Eq, Structural)]
pub enum PatchLineKind {
    Context,
    Add,
    Delete,
}

/// A line of a hunk.
#[derive(Debug, Clone, PartialEq, Eq)]
pub struct PatchLine {
    pub kind: PatchLineKind,
    pub text: String,
}

/// The view of a [`PatchLine`].
pub struct PatchLineV {
    pub kind: PatchLineKind,
    pub text: Seq<char>,
}

impl View for PatchLine {
    type V = PatchLineV;

    open spec fn view(&self) -> PatchLineV {
        PatchLineV { kind: self.kind, text: self.text@ }
    }
}

/// A hunk of a patch.
#[derive(Debug, Clone, PartialEq, Eq)]
pub struct PatchHunk {
    pub lines: Vec<PatchLine>,
}

impl View for PatchHunk {
    type V = Seq<PatchLineV>;

    open spec fn view(&self) -> Seq<PatchLineV> {
        views(self.lines@)
    }
}

/// The kind that a name stands for: `add` and `delete` in any case, and an update for
/// every other name.
pub open spec fn kind_named(name: Seq<char>) -> PatchKind {
    if lowercased(name) == "add"@ {
        PatchKind::Add
    } else if lowercased(name) == "delete"@ {
        PatchKind::Delete
    } else {
        PatchKind::Update
    }
}

/// The kind of a patch: a string names it, and so does the string `type` of an object;
/// anything else is an update.
pub open spec fn patch_kind_of(kind: JsonV) -> PatchKind {
    match kind {
        JsonV::Str(name) => kind_named(name),
        _ => match kind.text_at("type"@) {
            Some(name) => kind_named(name),
            None => PatchKind::Update,
        },
    }
}

/// Reads the kind that a name stands for.
fn kind_by_name(name: &String) -> (r: PatchKind)
    ensures
        r == kind_named(name@),
{
    let lower = lowercase(name.as_str());
    let add = chars_of("add");
    let delete = chars_of("delete");
    if string_is(&lower, &add) {
        PatchKind::Add
    } else if string_is(&lower, &delete) {
        PatchKind::Delete
    } else {
        PatchKind::Update
    }
}

/// Reads the kind of a patch.
pub fn normalize_patch_kind(kind: &Json) -> (r: PatchKind)
    ensures
        r == patch_kind_of(kind@),
{
    match kind {
        Json::Str(name) => kind_by_name(name),
        _ => match kind.str_at("type") {
            Some(name) => kind_by_name(name),
            None => PatchKind::Update,
        },
    }
}

/// The path that a patch moves its file to: the string `move_path` of the kind or,
/// failing that member, its `movePath`.
pub open spec fn move_path_of(kind: JsonV) -> Option<Seq<char>> {
    match kind.get("move_path"@) {
        Some(v) => v.as_text(),
        None => kind.text_at("movePath"@),
    }
}

/// Reads the path that a patch moves its file to.
pub fn extract_move_path(kind: &Json) -> (r: Option<String>)
    ensures
        opt_view(r) == move_path_of(kind@),
{
    match kind.get("move_path") {
        Some(v) => match v.as_str() {
            Some(s) => Some(copy_string(s)),
            None => None,
        },
        None => match kind.str_at("movePath") {
            Some(s) => Some(copy_string(s)),
            None => None,
        },
    }
}

/// A line that frames a patch and is no part of a hunk.
pub open spec fn is_meta(line: Seq<char>) -> bool {
    ||| has_prefix(line, "*** Begin Patch"@)
    ||| has_prefix(line, "*** End Patch"@)
    ||| has_prefix(line, "*** Update File:"@)
    ||| has_prefix(line, "*** Add File:"@)
    ||| has_prefix(line, "*** Delete File:"@)
    ||| has_prefix(line, "*** Move to:"@)
    ||| has_prefix(line, "diff --git "@)
    ||| has_prefix(line, "Index:"@)
    ||| has_prefix(line, "--- "@)
    ||| has_prefix(line, "+++ "@)
}

/// Tells whether a line frames a patch.
pub fn should_skip_meta(line: &Vec<char>) -> (r: bool)
    ensures
        r == is_meta(line@),
{
    starts_with_str(line, "*** Begin Patch") || starts_with_str(line, "*** End Patch")
        || starts_with_str(line, "*** Update File:") || starts_with_str(line, "*** Add File:")
        || starts_with_str(line, "*** Delete File:") || starts_with_str(line, "*** Move to:")
        || starts_with_str(line, "diff --git ") || starts_with_str(line, "Index:")
        || starts_with_str(line, "--- ") || starts_with_str(line, "+++ ")
}

/// `line` without its trailing carriage returns.
pub open spec fn without_returns(line: Seq<char>) -> Seq<char>
    decreases line.len(),
{
    if line.len() > 0 && line.last() == '\r' {
        without_returns(line.drop_last())
    } else {
        line
    }
}

/// Drops the trailing carriage returns of a line.
pub fn strip_returns(line: &Vec<char>) -> (out: Vec<char>)
    ensures
        out@ == without_returns(line@),
{
    let mut hi: usize = line.len();
    proof {
        assert(line@.take(hi as int) =~= line@);
    }
    while hi > 0 && line[hi - 1] == '\r'
        invariant
            hi <= line.len(),
            without_returns(line@) == without_returns(line@.take(hi as int)),
        decreases hi,
    {
        proof {
            assert(line@.take(hi as int).drop_last() =~= line@.take(hi as int - 1));
        }
        hi -= 1;
    }
    proof {
        assert(line@.take(hi as int) =~= line@.subrange(0, hi as int));
    }
    sub_text(line, 0, hi)
}

/// The hunks that were read, the lines of the hunk that is being read, and whether a
/// hunk header was seen.
pub struct HunkScan {
    pub hunks: Seq<Seq<PatchLineV>>,
    pub current: Seq<PatchLineV>,
    pub in_hunk: bool,
}

/// The scan after one more line. Lines that frame the patch are passed over. A line
/// that begins with `@@` closes the hunk that is being read, where it has lines, and
/// opens the next one. A line that begins with `+`, `-` or a blank adds, deletes or keeps
/// what follows that character. Any other line is kept whole where a hunk is open or
/// being read, and passed over where none is.
pub open spec fn scan_line(st: HunkScan, raw: Seq<char>) -> HunkScan {
    let line = without_returns(raw);
    if is_meta(line) {
        st
    } else if has_prefix(line, "@@"@) {
        HunkScan {
            hunks: if st.current.len() > 0 {
                st.hunks.push(st.current)
            } else {
                st.hunks
            },
            current: if st.current.len() > 0 {
                Seq::empty()
            } else {
                st.current
            },
            in_hunk: true,
        }
    } else if line.len() > 0 && line[0] == '+' {
        HunkScan {
            current: st.current.push(PatchLineV { kind: PatchLineKind::Add, text: line.skip(1) }),
            ..st
        }
    } else if line.len() > 0 && line[0] == '-' {
        HunkScan {
            current: st.current.push(
                PatchLineV { kind: PatchLineKind::Delete, text: line.skip(1) },
            ),
            ..st
        }
    } else if line.len() > 0 && line[0] == ' ' {
        HunkScan {
            current: st.current.push(
                PatchLineV { kind: PatchLineKind::Context, text: line.skip(1) },
            ),
            ..st
        }
    } else if st.in_hunk || st.current.len() > 0 {
        HunkScan {
            current: st.current.push(PatchLineV { kind: PatchLineKind::Context, text: line }),
            ..st
        }
    } else {
        st
    }
}

/// The scan after the first `n` lines.
pub open spec fn scan_lines(all: Seq<Seq<char>>, n: int) -> HunkScan
    decreases n,
{
    if n <= 0 || n > all.len() {
        HunkScan { hunks: Seq::empty(), current: Seq::empty(), in_hunk: false }
    } else {
        scan_line(scan_lines(all, n - 1), all[n - 1])
    }
}

/// The hunks of a patch: those that the scan of its lines read, and the one that it was
/// reading at the end, where that one has lines.
pub open spec fn hunks_of(diff: Seq<char>) -> Seq<Seq<PatchLineV>> {
    let end = scan_lines(lines(diff), lines(diff).len() as int);
    if end.current.len() > 0 {
        end.hunks.push(end.current)
    } else {
        end.hunks
    }
}

/// Reads the hunks of a patch.
pub fn parse_apply_patch_hunks(diff: &str) -> (out: Vec<PatchHunk>)
    ensures
        views(out@) == hunks_of(diff@),
{
    let text = chars_of(diff);
    let all = split_lines(&text);
    let mut hunks: Vec<PatchHunk> = Vec::new();
    let mut current: Vec<PatchLine> = Vec::new();
    let mut in_hunk = false;
    proof {
        assert(views(hunks@) =~= Seq::<Seq<PatchLineV>>::empty());
        assert(views(current@) =~= Seq::<PatchLineV>::empty());
    }
    let mut i: usize = 0;
    while i < all.len()
        invariant
            i <= all.len(),
            texts(all@) == lines(diff@),
            scan_lines(lines(diff@), i as int) == (HunkScan {
                hunks: views(hunks@),
                current: views(current@),
                in_hunk: in_hunk,
            }),
        decreases all.len() - i,
    {
        proof {
            assert(texts(all@)[i as int] == all@[i as int]@);
        }
        let line = strip_returns(&all[i]);
        i += 1;
        if should_skip_meta(&line) {
            continue;
        }
        if starts_with_str(&line, "@@") {
            if current.len() > 0 {
                let done = PatchHunk { lines: current };
                proof {
                    lemma_views_push(hunks@, done);
                }
                hunks.push(done);
                current = Vec::new();
                proof {
                    assert(views(current@) =~= Seq::<PatchLineV>::empty());
                }
            }
            in_hunk = true;
            continue;
        }
        let first: Option<char> = if line.len() > 0 {
            Some(line[0])
        } else {
            None
        };
        let (kind, body) = if first == Some('+') {
            (PatchLineKind::Add, sub_text(&line, 1, line.len()))
        } else if first == Some('-') {
            (PatchLineKind::Delete, sub_text(&line, 1, line.len()))
        } else if first == Some(' ') {
            (PatchLineKind::Context, sub_text(&line, 1, line.len()))
        } else if in_hunk || current.len() > 0 {
            (PatchLineKind::Context, sub_text(&line, 0, line.len()))
        } else {
            continue;
        };
        let entry = PatchLine { kind: kind, text: string_of(&body) };
        proof {
            assert(line@.skip(1) =~= line@.subrange(1, line@.len() as int));
            assert(line@ =~= line@.subrange(0, line@.len() as int));
            lemma_views_push(current@, entry);
        }
        current.push(entry);
    }
    if current.len() > 0 {
        let done = PatchHunk { lines: current };
        proof {
            lemma_views_push(hunks@, done);
        }
        hunks.push(done);
    }
    hunks
}

/// The texts of the lines of the kind `kind` among the first `n` lines of a hunk.
pub open spec fn kind_texts(hunk: Seq<PatchLineV>, kind: PatchLineKind, n: int) -> Seq<Seq<char>>
    decreases n,
{
    if n <= 0 || n > hunk.len() {
        Seq::empty()
    } else if hunk[n - 1].kind == kind {
        kind_texts(hunk, kind, n - 1).push(hunk[n - 1].text)
    } else {
        kind_texts(hunk, kind, n - 1)
    }
}

/// The texts of the lines of the kind `kind` in the first `n` hunks, in order.
pub open spec fn all_kind_texts(hunks: Seq<Seq<PatchLineV>>, kind: PatchLineKind, n: int) -> Seq<
    Seq<char>,
>
    decreases n,
{
    if n <= 0 || n > hunks.len() {
        Seq::empty()
    } else {
        all_kind_texts(hunks, kind, n - 1) + kind_texts(
            hunks[n - 1],
            kind,
            hunks[n - 1].len() as int,
        )
    }
}

/// Collects the texts of the lines of one kind from all hunks.
pub fn collect_lines_by_kind(hunks: &Vec<PatchHunk>, kind: PatchLineKind) -> (out: Vec<String>)
    ensures
        views(out@) == all_kind_texts(views(hunks@), kind, hunks.len() as int),
{
    let mut out: Vec<String> = Vec::new();
    proof {
        assert(views(out@) =~= Seq::<Seq<char>>::empty());
    }
    let mut i: usize = 0;
    while i < hunks.len()
        invariant
            i <= hunks.len(),
            views(out@) == all_kind_texts(views(hunks@), kind, i as int),
        decreases hunks.len() - i,
    {
        let hunk = &hunks[i];
        let ghost before = views(out@);
        proof {
            assert(views(hunks@)[i as int] == hunk@);
            assert(before + kind_texts(hunk@, kind, 0) =~= before);
        }
        let mut j: usize = 0;
        while j < hunk.lines.len()
            invariant
                j <= hunk.lines.len(),
                views(out@) == before + kind_texts(hunk@, kind, j as int),
            decreases hunk.lines.len() - j,
        {
            if hunk.lines[j].kind == kind {
                let c = copy_string(&hunk.lines[j].text);
                proof {
                    lemma_views_push(out@, c);
                    assert(hunk@[j as int] == hunk.lines@[j as int]@);
                    assert(before + kind_texts(hunk@, kind, j as int + 1) =~= (before + kind_texts(
                        hunk@,
                        kind,
                        j as int,
                    )).push(c@));
                }
                out.push(c);
            } else {
                proof {
                    assert(hunk@[j as int] == hunk.lines@[j as int]@);
                }
            }
            j += 1;
        }
        i += 1;
    }
    out
}

/// The lines of a hunk that the file holds once the hunk is applied: those that are not
/// deleted.
pub open spec fn pattern_of(hunk: Seq<PatchLineV>, n: int) -> Seq<Seq<char>>
    decreases n,
{
    if n <= 0 || n > hunk.len() {
        Seq::empty()
    } else if hunk[n - 1].kind != PatchLineKind::Delete {
        pattern_of(hunk, n - 1).push(hunk[n - 1].text)
    } else {
        pattern_of(hunk, n - 1)
    }
}

/// The pattern stands in the file at the line `at`.
pub open spec fn pattern_at(file: Seq<Seq<char>>, pattern: Seq<Seq<char>>, at: int) -> bool {
    0 <= at && at + pattern.len() <= file.len() && file.subrange(at, at + pattern.len())
        == pattern
}

/// The first line at or after `from` at which the pattern stands in the file.
pub open spec fn pattern_from(file: Seq<Seq<char>>, pattern: Seq<Seq<char>>, from: int) -> Option<
    int,
>
    decreases file.len() - from,
{
    if from < 0 || from + pattern.len() > file.len() {
        None
    } else if pattern_at(file, pattern, from) {
        Some(from)
    } else if from >= file.len() {
        None
    } else {
        pattern_from(file, pattern, from + 1)
    }
}

/// Where a hunk begins in the file: the first line at or after `search_start` at which
/// its pattern stands; nowhere where the pattern is empty.
pub open spec fn hunk_start(file: Seq<Seq<char>>, hunk: Seq<PatchLineV>, search_start: int)
    -> Option<int> {
    let pattern = pattern_of(hunk, hunk.len() as int);
    if pattern.len() == 0 {
        None
    } else {
        pattern_from(file, pattern, search_start)
    }
}

/// Collects the pattern of a hunk.
pub fn hunk_pattern(hunk: &PatchHunk) -> (out: Vec<String>)
    ensures
        views(out@) == pattern_of(hunk@, hunk.lines.len() as int),
{
    let mut out: Vec<String> = Vec::new();
    proof {
        assert(views(out@) =~= Seq::<Seq<char>>::empty());
    }
    let mut j: usize = 0;
    while j < hunk.lines.len()
        invariant
            j <= hunk.lines.len(),
            views(out@) == pattern_of(hunk@, j as int),
        decreases hunk.lines.len() - j,
    {
        proof {
            assert(hunk@[j as int] == hunk.lines@[j as int]@);
        }
        if hunk.lines[j].kind != PatchLineKind::Delete {
            let c = copy_string(&hunk.lines[j].text);
            proof {
                lemma_views_push(out@, c);
            }
            out.push(c);
        }
        j += 1;
    }
    out
}

/// Tells whether the pattern stands in the file at the line `at`.
pub fn pattern_matches(file_lines: &Vec<String>, pattern: &Vec<String>, at: usize) -> (r: bool)
    ensures
        r == pattern_at(views(file_lines@), views(pattern@), at as int),
{
    if at > file_lines.len() || pattern.len() > file_lines.len() - at {
        return false;
    }
    let ghost file = views(file_lines@);
    let ghost pat = views(pattern@);
    let mut k: usize = 0;
    while k < pattern.len()
        invariant
            k <= pattern.len(),
            at + pattern.len() <= file_lines.len(),
            file == views(file_lines@),
            pat == views(pattern@),
            file.subrange(at as int, at + k) == pat.take(k as int),
        decreases pattern.len() - k,
    {
        let a = chars_of(file_lines[at + k].as_str());
        proof {
            assert(file[at + k] == a@);
            assert(pat[k as int] == pattern@[k as int]@);
        }
        if !string_is(&pattern[k], &a) {
            proof {
                assert(file.subrange(at as int, at + pat.len())[k as int] == file[at + k]);
            }
            return false;
        }
        proof {
            assert(file.subrange(at as int, at + k + 1) =~= file.subrange(at as int, at + k).push(
                file[at + k],
            ));
            assert(pat.take(k as int + 1) =~= pat.take(k as int).push(pat[k as int]));
        }
        k += 1;
    }
    proof {
        assert(pat.take(pat.len() as int) =~= pat);
    }
    true
}

/// Finds where a hunk begins in the file, looking from the line `search_start` on.
#[verifier::loop_isolation(false)]
pub fn match_hunk_start(file_lines: &Vec<String>, hunk: &PatchHunk, search_start: usize) -> (r:
    Option<usize>)
    ensures
        match r {
            Some(at) => hunk_start(views(file_lines@), hunk@, search_start as int) == Some(
                at as int,
            ) && search_start <= at && at + pattern_of(hunk@, hunk@.len() as int).len()
                <= file_lines.len(),
            None => hunk_start(views(file_lines@), hunk@, search_start as int) is None,
        },
{
    let pattern = hunk_pattern(hunk);
    if pattern.len() == 0 {
        return None;
    }
    if pattern.len() > file_lines.len() || search_start > file_lines.len() - pattern.len() {
        return None;
    }
    let limit: usize = file_lines.len() - pattern.len();
    let mut idx: usize = search_start;
    while idx < limit
        invariant
            search_start <= idx <= limit,
            limit == file_lines.len() - pattern.len(),
            pattern.len() > 0,
            pattern_from(views(file_lines@), views(pattern@), search_start as int) == pattern_from(
                views(file_lines@),
                views(pattern@),
                idx as int,
            ),
        decreases limit - idx,
    {
        if pattern_matches(file_lines, &pattern, idx) {
            return Some(idx);
        }
        idx += 1;
    }
    if pattern_matches(file_lines, &pattern, idx) {
        return Some(idx);
    }
    proof {
        assert(pattern_from(views(file_lines@), views(pattern@), idx as int + 1) is None);
    }
    None
}

/// How many of the first `n` lines of a hunk stand in the file before the hunk is
/// applied: those that are not added.
pub open spec fn old_count(hunk: Seq<PatchLineV>, n: int) -> nat
    decreases n,
{
    if n <= 0 || n > hunk.len() {
        0
    } else {
        old_count(hunk, n - 1) + if hunk[n - 1].kind != PatchLineKind::Add {
            1nat
        } else {
            0nat
        }
    }
}

/// How many of the first `n` lines of a hunk stand in the file after the hunk is
/// applied: those that are not deleted.
pub open spec fn new_count(hunk: Seq<PatchLineV>, n: int) -> nat
    decreases n,
{
    if n <= 0 || n > hunk.len() {
        0
    } else {
        new_count(hunk, n - 1) + if hunk[n - 1].kind != PatchLineKind::Delete {
            1nat
        } else {
            0nat
        }
    }
}

/// The pattern of a hunk has as many lines as the hunk has lines that are not deleted.
pub proof fn lemma_pattern_len(hunk: Seq<PatchLineV>, n: int)
    requires
        0 <= n <= hunk.len(),
    ensures
        pattern_of(hunk, n).len() == new_count(hunk, n),
        new_count(hunk, n) <= n,
        old_count(hunk, n) <= n,
    decreases n,
{
    if n > 0 {
        lemma_pattern_len(hunk, n - 1);
    }
}

/// A line of a hunk as a unified diff shows it: a blank, `-` or `+`, and the text.
pub open spec fn diff_line(line: PatchLineV) -> Seq<char> {
    match line.kind {
        PatchLineKind::Context => seq![' '] + line.text,
        PatchLineKind::Delete => seq!['-'] + line.text,
        PatchLineKind::Add => seq!['+'] + line.text,
    }
}

/// The first `n` lines of a hunk as a unified diff shows them, with a line feed between
/// each two.
pub open spec fn diff_body(hunk: Seq<PatchLineV>, n: int) -> Seq<char>
    decreases n,
{
    if n <= 0 || n > hunk.len() {
        Seq::empty()
    } else if n == 1 {
        diff_line(hunk[0])
    } else {
        diff_body(hunk, n - 1) + seq!['\n'] + diff_line(hunk[n - 1])
    }
}

/// The header of a hunk of a unified diff.
pub open spec fn diff_header(old_start: nat, old_count: nat, new_start: nat, new_count: nat)
    -> Seq<char> {
    "@@ -"@ + decimal(old_start) + ","@ + decimal(old_count) + " +"@ + decimal(new_start) + ","@
        + decimal(new_count) + " @@\n"@
}

/// What the rendering of a unified diff has written, how many lines the hunks so far
/// took from the file and gave to it, and where the search for the next hunk begins.
pub struct DiffScan {
    pub out: Seq<char>,
    pub removed: nat,
    pub added: nat,
    pub search_start: int,
}

/// The rendering after the first `n` hunks; nothing where one of them does not begin in
/// the file at or after the end of the one before it. A hunk that begins at the line
/// `at`, counted from 0, begins at the line `at + 1` of the new file and that many lines
/// later in the old file as the hunks before it took more lines than they gave.
pub open spec fn diff_scan(hunks: Seq<Seq<PatchLineV>>, file: Seq<Seq<char>>, n: int) -> Option<
    DiffScan,
>
    decreases n,
{
    if n <= 0 || n > hunks.len() {
        Some(DiffScan { out: Seq::empty(), removed: 0, added: 0, search_start: 0 })
    } else {
        match diff_scan(hunks, file, n - 1) {
            None => None,
            Some(st) => {
                let hunk = hunks[n - 1];
                match hunk_start(file, hunk, st.search_start) {
                    None => None,
                    Some(at) => {
                        let olds = old_count(hunk, hunk.len() as int);
                        let news = new_count(hunk, hunk.len() as int);
                        if at + 1 + st.removed - st.added < 1 {
                            None
                        } else {
                            Some(
                                DiffScan {
                                    out: st.out + diff_header(
                                        (at + 1 + st.removed - st.added) as nat,
                                        olds,
                                        (at + 1) as nat,
                                        news,
                                    ) + diff_body(hunk, hunk.len() as int) + seq!['\n'],
                                    removed: st.removed + olds,
                                    added: st.added + news,
                                    search_start: at + news,
                                },
                            )
                        }
                    },
                }
            },
        }
    }
}

/// `text` without its trailing line feeds.
pub open spec fn without_line_feeds(text: Seq<char>) -> Seq<char>
    decreases text.len(),
{
    if text.len() > 0 && text.last() == '\n' {
        without_line_feeds(text.drop_last())
    } else {
        text
    }
}

/// The unified diff of the hunks of an update against the lines of the file as it
/// stands after the update; nothing where there is no hunk or a hunk is not found.
pub open spec fn unified_diff(hunks: Seq<Seq<PatchLineV>>, file: Seq<Seq<char>>) -> Option<
    Seq<char>,
> {
    if hunks.len() == 0 {
        None
    } else {
        match diff_scan(hunks, file, hunks.len() as int) {
            Some(st) => Some(without_line_feeds(st.out)),
            None => None,
        }
    }
}

/// Drops the trailing line feeds of a text.
pub fn strip_line_feeds(text: &Vec<char>) -> (out: Vec<char>)
    ensures
        out@ == without_line_feeds(text@),
{
    let mut hi: usize = text.len();
    proof {
        assert(text@.take(hi as int) =~= text@);
    }
    while hi > 0 && text[hi - 1] == '\n'
        invariant
            hi <= text.len(),
            without_line_feeds(text@) == without_line_feeds(text@.take(hi as int)),
        decreases hi,
    {
        proof {
            assert(text@.take(hi as int).drop_last() =~= text@.take(hi as int - 1));
        }
        hi -= 1;
    }
    proof {
        assert(text@.take(hi as int) =~= text@.subrange(0, hi as int));
    }
    sub_text(text, 0, hi)
}

/// Renders the lines of a hunk and counts them.
pub fn render_hunk_body(hunk: &PatchHunk) -> (r: (Vec<char>, usize, usize))
    ensures
        r.0@ == diff_body(hunk@, hunk@.len() as int),
        r.1 == old_count(hunk@, hunk@.len() as int),
        r.2 == new_count(hunk@, hunk@.len() as int),
{
    let mut out: Vec<char> = Vec::new();
    let mut olds: usize = 0;
    let mut news: usize = 0;
    let mut j: usize = 0;
    while j < hunk.lines.len()
        invariant
            j <= hunk.lines.len(),
            out@ == diff_body(hunk@, j as int),
            olds == old_count(hunk@, j as int),
            news == new_count(hunk@, j as int),
            olds <= j,
            news <= j,
        decreases hunk.lines.len() - j,
    {
        let line = &hunk.lines[j];
        proof {
            assert(hunk@[j as int] == line@);
        }
        let mut text: Vec<char> = Vec::new();
        match line.kind {
            PatchLineKind::Context => {
                text.push(' ');
                olds += 1;
                news += 1;
            },
            PatchLineKind::Delete => {
                text.push('-');
                olds += 1;
            },
            PatchLineKind::Add => {
                text.push('+');
                news += 1;
            },
        }
        append_str(&mut text, line.text.as_str());
        proof {
            assert(text@ =~= diff_line(line@));
        }
        if j > 0 {
            out.push('\n');
        }
        append_text(&mut out, &text);
        proof {
            if j == 0 {
                assert(out@ =~= diff_line(line@));
            } else {
                assert(out@ =~= diff_body(hunk@, j as int) + seq!['\n'] + diff_line(line@));
            }
        }
        j += 1;
    }
    (out, olds, news)
}

/// A bound that keeps the counters of a rendering within 128 bits.
proof fn lemma_counter_bound(i: int, m: int, x: int)
    by (nonlinear_arith)
    requires
        0 <= i < m,
        0 <= x <= i * m,
        m <= 0xffff_ffff_ffff_ffff,
    ensures
        x + m <= (i + 1) * m,
        (i + 1) * m <= 0xffff_ffff_ffff_ffff * 0xffff_ffff_ffff_ffff,
{
}

/// Renders the hunks of an update as a unified diff with line numbers, against the lines
/// of the file as it stands after the update.
pub fn build_unified_diff_from_hunks(hunks: &Vec<PatchHunk>, file_lines: &Vec<String>) -> (r:
    Option<String>)
    ensures
        opt_view(r) == unified_diff(views(hunks@), views(file_lines@)),
{
    if hunks.len() == 0 {
        return None;
    }
    let ghost hv = views(hunks@);
    let ghost file = views(file_lines@);
    let mut out: Vec<char> = Vec::new();
    let mut removed: u128 = 0;
    let mut added: u128 = 0;
    let mut search_start: usize = 0;
    let mut i: usize = 0;
    while i < hunks.len()
        invariant
            i <= hunks.len(),
            hv == views(hunks@),
            file == views(file_lines@),
            diff_scan(hv, file, i as int) == Some(
                DiffScan {
                    out: out@,
                    removed: removed as nat,
                    added: added as nat,
                    search_start: search_start as int,
                },
            ),
            added <= search_start <= file_lines.len(),
            removed <= i * usize::MAX,
        decreases hunks.len() - i,
    {
        let hunk = &hunks[i];
        proof {
            assert(hv[i as int] == hunk@);
            lemma_pattern_len(hunk@, hunk@.len() as int);
            lemma_counter_bound(i as int, usize::MAX as int, removed as int);
        }
        let at = match match_hunk_start(file_lines, hunk, search_start) {
            Some(at) => at,
            None => {
                proof {
                    assert(diff_scan(hv, file, i as int + 1) is None);
                    lemma_scan_stays_none(hv, file, i as int + 1, hunks.len() as int);
                }
                return None;
            },
        };
        let (body, olds, news) = render_hunk_body(hunk);
        let new_start: u128 = at as u128 + 1;
        let old_start: u128 = new_start + removed - added;
        let mut block = chars_of("@@ -");
        push_decimal_wide(&mut block, old_start);
        append_str(&mut block, ",");
        push_decimal_wide(&mut block, olds as u128);
        append_str(&mut block, " +");
        push_decimal_wide(&mut block, new_start);
        append_str(&mut block, ",");
        push_decimal_wide(&mut block, news as u128);
        append_str(&mut block, " @@\n");
        let ghost prev = out@;
        append_text(&mut out, &block);
        append_text(&mut out, &body);
        out.push('\n');
        proof {
            assert(block@ == diff_header(
                old_start as nat,
                olds as nat,
                new_start as nat,
                news as nat,
            ));
            assert(out@ =~= prev + block@ + body@ + seq!['\n']);
            assert(old_start as int == at + 1 + removed - added);
        }
        removed = removed + olds as u128;
        added = added + news as u128;
        search_start = at + news;
        i += 1;
    }
    let trimmed = strip_line_feeds(&out);
    Some(string_of(&trimmed))
}

/// Once a hunk is not found, the rendering has no result.
pub proof fn lemma_scan_stays_none(
    hunks: Seq<Seq<PatchLineV>>,
    file: Seq<Seq<char>>,
    n: int,
    m: int,
)
    requires
        0 < n <= m <= hunks.len(),
        diff_scan(hunks, file, n) is None,
    ensures
        diff_scan(hunks, file, m) is None,
    decreases m - n,
{
    if n < m {
        lemma_scan_stays_none(hunks, file, n, m - 1);
    }
}

/// The lines of a file that is added or deleted as one hunk of a unified diff: the
/// header, and each line after `+` or `-`, with a line feed between each two.
pub open spec fn whole_file_lines(items: Seq<Seq<char>>, sign: char, n: int) -> Seq<char>
    decreases n,
{
    if n <= 0 || n > items.len() {
        Seq::empty()
    } else if n == items.len() {
        whole_file_lines(items, sign, n - 1) + seq![sign] + items[n - 1]
    } else {
        whole_file_lines(items, sign, n - 1) + seq![sign] + items[n - 1] + seq!['\n']
    }
}

/// The unified diff of a file that is added or deleted; nothing for an update.
pub open spec fn whole_file_diff(items: Seq<Seq<char>>, kind: PatchKind) -> Option<Seq<char>> {
    match kind {
        PatchKind::Add => Some(
            diff_header(0, 0, 1, items.len()) + whole_file_lines(items, '+', items.len() as int),
        ),
        PatchKind::Delete => Some(
            diff_header(1, items.len(), 0, 0) + whole_file_lines(items, '-', items.len() as int),
        ),
        PatchKind::Update => None,
    }
}

/// Renders the lines of a file that is added or deleted as a unified diff.
pub fn build_unified_diff_for_add_delete(items: &Vec<String>, kind: PatchKind) -> (r: Option<
    String,
>)
    ensures
        opt_view(r) == whole_file_diff(views(items@), kind),
{
    let sign: char = match kind {
        PatchKind::Add => '+',
        PatchKind::Delete => '-',
        PatchKind::Update => {
            return None;
        },
    };
    let count = items.len() as u128;
    let mut out = chars_of("@@ -");
    if kind == PatchKind::Add {
        push_decimal_wide(&mut out, 0);
        append_str(&mut out, ",");
        push_decimal_wide(&mut out, 0);
        append_str(&mut out, " +");
        push_decimal_wide(&mut out, 1);
        append_str(&mut out, ",");
        push_decimal_wide(&mut out, count);
    } else {
        push_decimal_wide(&mut out, 1);
        append_str(&mut out, ",");
        push_decimal_wide(&mut out, count);
        append_str(&mut out, " +");
        push_decimal_wide(&mut out, 0);
        append_str(&mut out, ",");
        push_decimal_wide(&mut out, 0);
    }
    append_str(&mut out, " @@\n");
    let mut body: Vec<char> = Vec::new();
    let mut i: usize = 0;
    while i < items.len()
        invariant
            i <= items.len(),
            body@ == whole_file_lines(views(items@), sign, i as int),
        decreases items.len() - i,
    {
        body.push(sign);
        append_str(&mut body, items[i].as_str());
        if i + 1 < items.len() {
            body.push('\n');
        }
        proof {
            assert(views(items@)[i as int] == items@[i as int]@);
            if i + 1 == items.len() {
                assert(body@ =~= whole_file_lines(views(items@), sign, i as int) + seq![sign]
                    + items@[i as int]@);
            } else {
                assert(body@ =~= whole_file_lines(views(items@), sign, i as int) + seq![sign]
                    + items@[i as int]@ + seq!['\n']);
            }
        }
        i += 1;
    }
    append_text(&mut out, &body);
    Some(string_of(&out))
}

/// The file that a patch is about: an absolute path stands for itself, any other path
/// lies below the working directory, and is nowhere where there is none.
pub open spec fn target_path(path: Seq<char>, cwd: Option<Seq<char>>) -> Option<Seq<char>> {
    if is_absolute(path) {
        Some(path)
    } else {
        match cwd {
            Some(base) => Some(joined(base, path)),
            None => None,
        }
    }
}

/// Finds the file that a patch is about.
pub fn resolve_target_path(path: &str, cwd: Option<&str>) -> (r: Option<String>)
    ensures
        opt_view(r) == target_path(
            path@,
            match cwd {
                Some(c) => Some(c@),
                None => None,
            },
        ),
{
    let p = chars_of(path);
    if p.len() > 0 && p[0] == '/' {
        return Some(string_of(&p));
    }
    match cwd {
        Some(base) => Some(join_path(base, path)),
        None => None,
    }
}

/// The greatest size of a file that is read for the rendering of a patch, in bytes.
pub const MAX_FILE_BYTES: u64 = 1_000_000;

/// Tells whether a file is read for the rendering of a patch: a regular file of no
/// more than the greatest size.
pub fn reads_file(is_file: bool, len: u64) -> (r: bool)
    ensures
        r == (is_file && len <= MAX_FILE_BYTES),
{
    is_file && len <= MAX_FILE_BYTES
}

/// What the caller found at the path of the file of an update.
#[derive(Debug, Clone, PartialEq, Eq)]
pub struct TargetFile {
    /// The path names a regular file.
    pub is_file: bool,
    /// The size of the file in bytes.
    pub len: u64,
    /// The content of the file, where the caller could read it as text.
    pub content: Option<String>,
}

/// The lines of the file of an update, where it is a regular file of at most a million
/// bytes whose content the caller could read.
pub open spec fn readable_lines(file: Option<TargetFile>) -> Option<Seq<Seq<char>>> {
    match file {
        Some(f) => if f.is_file && f.len <= MAX_FILE_BYTES {
            match f.content {
                Some(c) => Some(lines(c@)),
                None => None,
            }
        } else {
            None
        },
        None => None,
    }
}

/// What the rendering of a patch needs next.
pub enum EnrichmentV {
    /// The rendering is done: the text, and whether it has line numbers.
    Done(Seq<char>, bool),
    /// The file at this path is needed.
    NeedsFile(Seq<char>),
}

/// The rendering of a patch as far as it goes without the file. A file that is added or
/// deleted is rendered from the patch alone. An update needs the file that the patch
/// moves to or is about; where that file is nowhere, the patch stays as it is, without
/// line numbers.
pub open spec fn enrichment_plan(
    path: Seq<char>,
    kind: JsonV,
    diff: Seq<char>,
    cwd: Option<Seq<char>>,
) -> EnrichmentV {
    let hunks = hunks_of(diff);
    match patch_kind_of(kind) {
        PatchKind::Add => EnrichmentV::Done(
            whole_file_diff(
                all_kind_texts(hunks, PatchLineKind::Add, hunks.len() as int),
                PatchKind::Add,
            )->0,
            true,
        ),
        PatchKind::Delete => EnrichmentV::Done(
            whole_file_diff(
                all_kind_texts(hunks, PatchLineKind::Delete, hunks.len() as int),
                PatchKind::Delete,
            )->0,
            true,
        ),
        PatchKind::Update => {
            let target = match move_path_of(kind) {
                Some(p) => p,
                None => path,
            };
            match target_path(target, cwd) {
                Some(full) => EnrichmentV::NeedsFile(full),
                None => EnrichmentV::Done(diff, false),
            }
        },
    }
}

/// The rendering of an update against its file: the unified diff with line numbers
/// where the file can be read and every hunk is found in it, else the patch as it is,
/// without line numbers.
pub open spec fn enriched_update(diff: Seq<char>, file: Option<TargetFile>) -> (Seq<char>, bool) {
    match readable_lines(file) {
        Some(file_lines) => match unified_diff(hunks_of(diff), file_lines) {
            Some(text) => (text, true),
            None => (diff, false),
        },
        None => (diff, false),
    }
}

/// What the rendering of a patch needs next.
#[derive(Debug, Clone, PartialEq, Eq)]
pub enum Enrichment {
    Done(String, bool),
    NeedsFile(String),
}

/// Renders a patch as far as it goes without the file of an update.
pub fn enrich_file_change_diff(path: &str, kind: &Json, diff: &str, cwd: Option<&str>) -> (r:
    Enrichment)
    ensures
        match enrichment_plan(
            path@,
            kind@,
            diff@,
            match cwd {
                Some(c) => Some(c@),
                None => None,
            },
        ) {
            EnrichmentV::Done(text, numbered) => r matches Enrichment::Done(t, n) && t@ == text
                && n == numbered,
            EnrichmentV::NeedsFile(full) => r matches Enrichment::NeedsFile(p) && p@ == full,
        },
{
    let patch_kind = normalize_patch_kind(kind);
    if patch_kind == PatchKind::Add || patch_kind == PatchKind::Delete {
        let hunks = parse_apply_patch_hunks(diff);
        let line_kind = if patch_kind == PatchKind::Add {
            PatchLineKind::Add
        } else {
            PatchLineKind::Delete
        };
        let items = collect_lines_by_kind(&hunks, line_kind);
        return match build_unified_diff_for_add_delete(&items, patch_kind) {
            Some(text) => Enrichment::Done(text, true),
            None => Enrichment::Done(owned(diff), false),
        };
    }
    let target = match extract_move_path(kind) {
        Some(p) => p,
        None => owned(path),
    };
    match resolve_target_path(target.as_str(), cwd) {
        Some(full) => Enrichment::NeedsFile(full),
        None => Enrichment::Done(owned(diff), false),
    }
}

/// Renders an update against what the caller found at the path of its file.
pub fn enrich_update_diff(diff: &str, file: &Option<TargetFile>) -> (r: (String, bool))
    ensures
        r.0@ == enriched_update(diff@, *file).0,
        r.1 == enriched_update(diff@, *file).1,
{
    let content = match file {
        Some(f) => {
            if !f.is_file || f.len > MAX_FILE_BYTES {
                return (owned(diff), false);
            }
            match &f.content {
                Some(c) => chars_of(c.as_str()),
                None => {
                    return (owned(diff), false);
                },
            }
        },
        None => {
            return (owned(diff), false);
        },
    };
    let raw = split_lines(&content);
    let mut file_lines: Vec<String> = Vec::new();
    proof {
        assert(views(file_lines@) =~= texts(raw@).take(0));
    }
    let mut i: usize = 0;
    while i < raw.len()
        invariant
            i <= raw.len(),
            views(file_lines@) == texts(raw@).take(i as int),
        decreases raw.len() - i,
    {
        let s = string_of(&raw[i]);
        proof {
            lemma_views_push(file_lines@, s);
            assert(texts(raw@).take(i as int + 1) =~= texts(raw@).take(i as int).push(
                raw@[i as int]@,
            ));
        }
        file_lines.push(s);
        i += 1;
    }
    proof {
        assert(texts(raw@).take(raw.len() as int) =~= texts(raw@));
    }
    let hunks = parse_apply_patch_hunks(diff);
    match build_unified_diff_from_hunks(&hunks, &file_lines) {
        Some(text) => (text, true),
        None => (owned(diff), false),
    }
}

/// A file of more than a million bytes is not read: the patch of an update against it
/// stays as it is, without line numbers.
pub proof fn law_large_file_keeps_patch(diff: Seq<char>, file: TargetFile)
    requires
        file.len > MAX_FILE_BYTES,
    ensures
        enriched_update(diff, Some(file)) == (diff, false),
{
}

} // verus!
