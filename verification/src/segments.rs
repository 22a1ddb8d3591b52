//! The body of a patch in the form that the vendor tool applies, cut into one segment
//! for each file.

use vstd::prelude::*;
use crate::json::{empty_object, Json, JsonV};
use crate::split::{join, join_texts, lemma_texts_push, lines, split_lines, texts};
use crate::text::{
    chars_of, copy_opt_string, copy_string, has_prefix, lemma_views_push, opt_view,
    starts_with_str, string_of, sub_text, trim, trim_text, views,
};

verus! {

/// What a segment does to its file.
#[derive(Debug, Clone, PartialEq, Eq)]
pub enum SegmentKind {
    /// The file is changed, and moved where a path is given.
    Update { move_path: Option<String> },
    Add,
    Delete,
}

/// The view of a [`SegmentKind`].
pub enum SegmentKindV {
    Update { move_path: Option<Seq<char>> },
    Add,
    Delete,
}

impl View for SegmentKind {
    type V = SegmentKindV;

    open spec fn view(&self) -> SegmentKindV {
        match self {
            SegmentKind::Update { move_path } => SegmentKindV::Update {
                move_path: opt_view(*move_path),
            },
            SegmentKind::Add => SegmentKindV::Add,
            SegmentKind::Delete => SegmentKindV::Delete,
        }
    }
}

/// The kind of a segment as a JSON object: its name under `type`, and for an update the
/// path that the file moves to, or `null`, under `move_path`.
pub open spec fn kind_json(kind: SegmentKindV) -> JsonV {
    match kind {
        SegmentKindV::Update { move_path } => empty_object().with(
            "move_path"@,
            match move_path {
                Some(p) => JsonV::Str(p),
                None => JsonV::Null,
            },
        ).with("type"@, JsonV::Str("update"@)),
        SegmentKindV::Add => empty_object().with("type"@, JsonV::Str("add"@)),
        SegmentKindV::Delete => empty_object().with("type"@, JsonV::Str("delete"@)),
    }
}

impl SegmentKind {
    /// The kind as a JSON object.
    pub fn to_json(&self) -> (r: Json)
        ensures
            r@ == kind_json(self@),
    {
        let mut out = Json::object();
        match self {
            SegmentKind::Update { move_path } => {
                match move_path {
                    Some(p) => {
                        out.set("move_path", Json::Str(copy_string(p)));
                    },
                    None => {
                        out.set("move_path", Json::Null);
                    },
                }
                out.set("type", Json::string("update"));
            },
            SegmentKind::Add => {
                out.set("type", Json::string("add"));
            },
            SegmentKind::Delete => {
                out.set("type", Json::string("delete"));
            },
        }
        out
    }

    /// A copy of the kind.
    pub fn copy(&self) -> (r: SegmentKind)
        ensures
            r@ == self@,
    {
        match self {
            SegmentKind::Update { move_path } => SegmentKind::Update {
                move_path: copy_opt_string(move_path),
            },
            SegmentKind::Add => SegmentKind::Add,
            SegmentKind::Delete => SegmentKind::Delete,
        }
    }
}

/// The part of a patch that is about one file: the path of the file, what is done to
/// it, and the lines of the patch from its header on.
#[derive(Debug, Clone, PartialEq, Eq)]
pub struct PatchFileSegment {
    pub path: String,
    pub kind: SegmentKind,
    pub diff: String,
}

/// The view of a [`PatchFileSegment`].
pub struct PatchFileSegmentV {
    pub path: Seq<char>,
    pub kind: SegmentKindV,
    pub diff: Seq<char>,
}

impl View for PatchFileSegment {
    type V = PatchFileSegmentV;

    open spec fn view(&self) -> PatchFileSegmentV {
        PatchFileSegmentV { path: self.path@, kind: self.kind@, diff: self.diff@ }
    }
}

/// The header of a segment for an update.
pub open spec fn update_header() -> Seq<char> {
    "*** Update File: "@
}

/// The header of a segment for a new file.
pub open spec fn add_header() -> Seq<char> {
    "*** Add File: "@
}

/// The header of a segment for a file that is deleted.
pub open spec fn delete_header() -> Seq<char> {
    "*** Delete File: "@
}

/// The line that names the path that an updated file moves to.
pub open spec fn move_header() -> Seq<char> {
    "*** Move to: "@
}

/// The kind and the path that a header line opens a segment with; nothing for a line
/// that is no header.
pub open spec fn header_of(line: Seq<char>) -> Option<(SegmentKindV, Seq<char>)> {
    if has_prefix(line, update_header()) {
        Some((SegmentKindV::Update { move_path: None }, trim(line.skip(update_header().len() as int))))
    } else if has_prefix(line, add_header()) {
        Some((SegmentKindV::Add, trim(line.skip(add_header().len() as int))))
    } else if has_prefix(line, delete_header()) {
        Some((SegmentKindV::Delete, trim(line.skip(delete_header().len() as int))))
    } else {
        None
    }
}

/// The segment that is being read: its path, its kind, and its lines so far.
pub struct OpenSegment {
    pub path: Seq<char>,
    pub kind: SegmentKindV,
    pub lines: Seq<Seq<char>>,
}

/// The segments that were read and the one that is being read, each with its lines.
pub struct SegmentScan {
    pub done: Seq<OpenSegment>,
    pub open: Option<OpenSegment>,
}

/// The segment that an open segment is closed as: its lines are joined by line feeds.
pub open spec fn closed(open: OpenSegment) -> PatchFileSegmentV {
    PatchFileSegmentV { path: open.path, kind: open.kind, diff: join(open.lines, seq!['\n']) }
}

/// The segments that were read, with the open one among them.
pub open spec fn flushed(st: SegmentScan) -> Seq<OpenSegment> {
    match st.open {
        Some(o) => st.done.push(o),
        None => st.done,
    }
}

/// The segments that a list of read segments is closed as.
pub open spec fn closed_all(blocks: Seq<OpenSegment>) -> Seq<PatchFileSegmentV> {
    Seq::new(blocks.len(), |i: int| closed(blocks[i]))
}

/// The kind of an open segment after a line that names where its file moves to: an
/// update moves to the trimmed rest of the line, any other kind stays.
pub open spec fn moved_kind(kind: SegmentKindV, line: Seq<char>) -> SegmentKindV {
    match kind {
        SegmentKindV::Update { .. } => SegmentKindV::Update {
            move_path: Some(trim(line.skip(move_header().len() as int))),
        },
        other => other,
    }
}

/// The scan after one more line. A header closes the open segment and opens the next
/// one, whose first line it is. Any other line belongs to the open segment, and is passed
/// over where none is open; a line that names where the file moves to also sets that path
/// in the kind of an open update.
pub open spec fn segment_step(st: SegmentScan, line: Seq<char>) -> SegmentScan {
    match header_of(line) {
        Some((kind, path)) => SegmentScan {
            done: flushed(st),
            open: Some(OpenSegment { path: path, kind: kind, lines: seq![line] }),
        },
        None => match st.open {
            Some(o) => SegmentScan {
                done: st.done,
                open: Some(
                    OpenSegment {
                        path: o.path,
                        kind: if has_prefix(line, move_header()) {
                            moved_kind(o.kind, line)
                        } else {
                            o.kind
                        },
                        lines: o.lines.push(line),
                    },
                ),
            },
            None => st,
        },
    }
}

/// The scan after the first `n` lines.
pub open spec fn segment_scan(all: Seq<Seq<char>>, n: int) -> SegmentScan
    decreases n,
{
    if n <= 0 || n > all.len() {
        SegmentScan { done: Seq::empty(), open: None }
    } else {
        segment_step(segment_scan(all, n - 1), all[n - 1])
    }
}

/// The segments of the lines of a patch, each with its lines.
pub open spec fn segment_blocks(all: Seq<Seq<char>>) -> Seq<OpenSegment> {
    flushed(segment_scan(all, all.len() as int))
}

/// The segments of the lines of a patch.
pub open spec fn segments_of_lines(all: Seq<Seq<char>>) -> Seq<PatchFileSegmentV> {
    closed_all(segment_blocks(all))
}

/// The segments of a patch.
pub open spec fn segments_of(patch: Seq<char>) -> Seq<PatchFileSegmentV> {
    segments_of_lines(lines(patch))
}

/// Reads the header of a segment.
fn read_header(line: &Vec<char>) -> (r: Option<(SegmentKind, String)>)
    ensures
        match r {
            Some((kind, path)) => header_of(line@) == Some((kind@, path@)),
            None => header_of(line@) is None,
        },
{
    let update = chars_of("*** Update File: ");
    let add = chars_of("*** Add File: ");
    let delete = chars_of("*** Delete File: ");
    let (kind, skip) = if crate::text::starts_with(line, &update) {
        (SegmentKind::Update { move_path: None }, update.len())
    } else if crate::text::starts_with(line, &add) {
        (SegmentKind::Add, add.len())
    } else if crate::text::starts_with(line, &delete) {
        (SegmentKind::Delete, delete.len())
    } else {
        return None;
    };
    let rest = sub_text(line, skip, line.len());
    proof {
        assert(line@.skip(skip as int) =~= rest@);
    }
    let path = trim_text(&rest);
    Some((kind, string_of(&path)))
}

/// Cuts the body of a patch into one segment for each file.
pub fn parse_apply_patch_segments(patch: &str) -> (out: Vec<PatchFileSegment>)
    ensures
        views(out@) == segments_of(patch@),
{
    let text = chars_of(patch);
    let all = split_lines(&text);
    let mut done: Vec<PatchFileSegment> = Vec::new();
    let mut open: Option<(String, SegmentKind, Vec<Vec<char>>)> = None;
    let mut sep: Vec<char> = Vec::new();
    sep.push('\n');
    proof {
        assert(sep@ =~= seq!['\n']);
        assert(views(done@) =~= closed_all(Seq::<OpenSegment>::empty()));
    }
    let mut i: usize = 0;
    while i < all.len()
        invariant
            i <= all.len(),
            sep@ == seq!['\n'],
            texts(all@) == lines(patch@),
            closed_all(segment_scan(lines(patch@), i as int).done) == views(done@),
            match open {
                Some((path, kind, ls)) => segment_scan(lines(patch@), i as int).open == Some(
                    OpenSegment { path: path@, kind: kind@, lines: texts(ls@) },
                ),
                None => segment_scan(lines(patch@), i as int).open is None,
            },
        decreases all.len() - i,
    {
        let line = &all[i];
        proof {
            assert(texts(all@)[i as int] == line@);
        }
        let copy = sub_text(line, 0, line.len());
        proof {
            assert(copy@ =~= line@);
        }
        match read_header(line) {
            Some((kind, path)) => {
                match open {
                    Some((p, k, ls)) => {
                        let diff = join_texts(&ls, &sep);
                        let seg = PatchFileSegment { path: p, kind: k, diff: string_of(&diff) };
                        proof {
                            lemma_views_push(done@, seg);
                            let before = segment_scan(lines(patch@), i as int);
                            assert(closed_all(flushed(before)) =~= closed_all(before.done).push(
                                seg@,
                            ));
                        }
                        done.push(seg);
                    },
                    None => {},
                }
                let mut ls: Vec<Vec<char>> = Vec::new();
                ls.push(copy);
                proof {
                    assert(texts(ls@) =~= seq![line@]);
                }
                open = Some((path, kind, ls));
            },
            None => {
                match open {
                    Some((p, k, ls)) => {
                        let mut ls = ls;
                        let kind = if starts_with_str(line, "*** Move to: ") {
                            match k {
                                SegmentKind::Update { move_path } => {
                                    let prefix = chars_of("*** Move to: ");
                                    let rest = sub_text(line, prefix.len(), line.len());
                                    proof {
                                        assert(line@.skip(prefix@.len() as int) =~= rest@);
                                    }
                                    let target = trim_text(&rest);
                                    SegmentKind::Update { move_path: Some(string_of(&target)) }
                                },
                                other => other,
                            }
                        } else {
                            k
                        };
                        proof {
                            lemma_texts_push(ls@, copy);
                        }
                        ls.push(copy);
                        open = Some((p, kind, ls));
                    },
                    None => {
                        open = None;
                    },
                }
            },
        }
        i += 1;
    }
    match open {
        Some((p, k, ls)) => {
            let diff = join_texts(&ls, &sep);
            let seg = PatchFileSegment { path: p, kind: k, diff: string_of(&diff) };
            proof {
                lemma_views_push(done@, seg);
                let end = segment_scan(lines(patch@), all.len() as int);
                assert(closed_all(flushed(end)) =~= closed_all(end.done).push(seg@));
            }
            done.push(seg);
        },
        None => {},
    }
    done
}

} // verus!
