//! What holds of the segments of every patch: a segment that is rendered and read again
//! is the segment that was rendered, and so are all the segments of a patch together.

use vstd::prelude::*;
use crate::paths::{pieces, pieces_from};
use crate::segments::{
    closed, closed_all, flushed, header_of, move_header, moved_kind, segment_blocks, segment_scan,
    segment_step, segments_of, OpenSegment, PatchFileSegmentV, SegmentKindV, SegmentScan,
};
use crate::split::{join, lines, lines_from, strip_cr};
use crate::text::{has_prefix, index_of_char, lemma_index_of_char};

verus! {

/// The text holds no line feed.
pub open spec fn is_one_line(l: Seq<char>) -> bool {
    forall|i: int| 0 <= i < l.len() ==> #[trigger] l[i] != '\n'
}

/// Every text of the list holds no line feed.
pub open spec fn are_lines(ls: Seq<Seq<char>>) -> bool {
    forall|i: int| 0 <= i < ls.len() ==> is_one_line(#[trigger] ls[i])
}

/// Searching a text for a character that does not occur from `from` on finds nothing.
proof fn lemma_index_without(s: Seq<char>, c: char, from: int)
    requires
        0 <= from <= s.len(),
        forall|i: int| from <= i < s.len() ==> #[trigger] s[i] != c,
    ensures
        index_of_char(s, c, from) == s.len(),
    decreases s.len() - from,
{
    if from < s.len() {
        assert(s[from] != c);
        lemma_index_without(s, c, from + 1);
    }
}

/// Searching the front of a longer text finds what searching the front alone finds, and
/// goes on behind the front where the front has nothing.
proof fn lemma_index_in_front(a: Seq<char>, rest: Seq<char>, c: char, from: int)
    requires
        0 <= from <= a.len(),
    ensures
        index_of_char(a + rest, c, from) == if index_of_char(a, c, from) < a.len() {
            index_of_char(a, c, from)
        } else {
            index_of_char(a + rest, c, a.len() as int)
        },
    decreases a.len() - from,
{
    if from < a.len() {
        assert((a + rest)[from] == a[from]);
        if a[from] != c {
            lemma_index_in_front(a, rest, c, from + 1);
        }
    }
}

/// The pieces of a text, a separator and one more piece are the pieces of the text and
/// that piece.
proof fn lemma_pieces_append(a: Seq<char>, l: Seq<char>, c: char, from: int)
    requires
        0 <= from <= a.len(),
        forall|i: int| 0 <= i < l.len() ==> #[trigger] l[i] != c,
    ensures
        pieces_from(a + seq![c] + l, c, from) == pieces_from(a, c, from).push(l),
    decreases a.len() - from,
{
    let s = a + seq![c] + l;
    let k = index_of_char(a, c, from);
    lemma_index_of_char(a, c, from);
    lemma_index_in_front(a, seq![c] + l, c, from);
    assert(a + (seq![c] + l) =~= s);
    assert(s[a.len() as int] == c);
    if k < a.len() {
        lemma_pieces_append(a, l, c, k + 1);
        assert(s.subrange(from, k) =~= a.subrange(from, k));
        assert((seq![a.subrange(from, k)] + pieces_from(a, c, k + 1)).push(l) =~= seq![
            a.subrange(from, k),
        ] + pieces_from(a, c, k + 1).push(l));
    } else {
        assert(index_of_char(s, c, from) == a.len());
        assert forall|i: int| a.len() + 1 <= i < s.len() implies #[trigger] s[i] != c by {
            assert(s[i] == l[i - a.len() - 1]);
        }
        lemma_index_without(s, c, a.len() as int + 1);
        assert(s.subrange(from, a.len() as int) =~= a.subrange(from, a.len() as int));
        assert(s.subrange(a.len() as int + 1, s.len() as int) =~= l);
        assert(pieces_from(s, c, a.len() as int + 1) =~= seq![l]);
        assert(seq![a.subrange(from, a.len() as int)] + seq![l] =~= seq![
            a.subrange(from, a.len() as int),
        ].push(l));
    }
}

/// Cutting the join of some lines at the line feeds gives the lines back.
pub proof fn lemma_pieces_of_join(ls: Seq<Seq<char>>)
    requires
        ls.len() >= 1,
        are_lines(ls),
    ensures
        pieces(join(ls, seq!['\n']), '\n') == ls,
    decreases ls.len(),
{
    if ls.len() == 1 {
        assert(is_one_line(ls[0]));
        lemma_index_without(ls[0], '\n', 0);
        assert(ls[0].subrange(0, ls[0].len() as int) =~= ls[0]);
        assert(seq![ls[0]] =~= ls);
    } else {
        let init = ls.drop_last();
        assert forall|i: int| 0 <= i < init.len() implies is_one_line(#[trigger] init[i]) by {
            assert(init[i] == ls[i]);
        }
        lemma_pieces_of_join(init);
        assert(is_one_line(ls.last()));
        lemma_pieces_append(join(init, seq!['\n']), ls.last(), '\n', 0);
        assert(init.push(ls.last()) =~= ls);
    }
}

/// Two lists of lines with the same join are the same list.
pub proof fn lemma_join_is_injective(xs: Seq<Seq<char>>, ys: Seq<Seq<char>>)
    requires
        xs.len() >= 1,
        ys.len() >= 1,
        are_lines(xs),
        are_lines(ys),
        join(xs, seq!['\n']) == join(ys, seq!['\n']),
    ensures
        xs == ys,
{
    lemma_pieces_of_join(xs);
    lemma_pieces_of_join(ys);
}

/// The join of some lines is at least as long as the first of them.
proof fn lemma_join_len(ls: Seq<Seq<char>>)
    requires
        ls.len() >= 1,
    ensures
        join(ls, seq!['\n']).len() >= ls[0].len(),
    decreases ls.len(),
{
    if ls.len() > 1 {
        lemma_join_len(ls.drop_last());
        assert(ls.drop_last()[0] == ls[0]);
    }
}

/// The lines of a text hold no line feed.
pub proof fn lemma_lines_are_lines(s: Seq<char>, from: int)
    requires
        0 <= from,
    ensures
        are_lines(lines_from(s, from)),
    decreases s.len() - from,
{
    if from < s.len() {
        let k = index_of_char(s, '\n', from);
        lemma_index_of_char(s, '\n', from);
        if k >= s.len() {
            let line = s.subrange(from, s.len() as int);
            assert forall|i: int| 0 <= i < line.len() implies #[trigger] line[i] != '\n' by {
                assert(line[i] == s[from + i]);
            }
            assert(lines_from(s, from) =~= seq![line]);
        } else {
            lemma_lines_are_lines(s, k + 1);
            let raw = s.subrange(from, k);
            let line = strip_cr(raw);
            assert forall|i: int| 0 <= i < line.len() implies #[trigger] line[i] != '\n' by {
                assert(line[i] == s[from + i]);
            }
            let rest = lines_from(s, k + 1);
            let all = seq![line] + rest;
            assert forall|i: int| 0 <= i < all.len() implies is_one_line(#[trigger] all[i]) by {
                if i > 0 {
                    assert(all[i] == rest[i - 1]);
                }
            }
        }
    }
}

/// The kind of the segment that the first `n` lines of a block open.
pub open spec fn kind_after(ls: Seq<Seq<char>>, n: int) -> SegmentKindV
    decreases n,
{
    if n <= 1 {
        match header_of(ls[0]) {
            Some((kind, _)) => kind,
            None => SegmentKindV::Add,
        }
    } else if has_prefix(ls[n - 1], move_header()) {
        moved_kind(kind_after(ls, n - 1), ls[n - 1])
    } else {
        kind_after(ls, n - 1)
    }
}

/// A segment with its lines is a block: its first line is the header that gives its
/// path, no other line of it is a header, none holds a line feed, and its kind is the one
/// that its lines open.
pub open spec fn is_block(o: OpenSegment) -> bool {
    &&& o.lines.len() >= 1
    &&& header_of(o.lines[0]) matches Some((_, path)) && path == o.path
    &&& forall|i: int| 1 <= i < o.lines.len() ==> header_of(#[trigger] o.lines[i]) is None
    &&& are_lines(o.lines)
    &&& o.kind == kind_after(o.lines, o.lines.len() as int)
}

/// Every segment that a scan reads, and the one that it is reading, is a block.
pub proof fn lemma_scan_reads_blocks(all: Seq<Seq<char>>, n: int)
    requires
        0 <= n <= all.len(),
        are_lines(all),
    ensures
        forall|i: int|
            0 <= i < segment_scan(all, n).done.len() ==> is_block(
                #[trigger] segment_scan(all, n).done[i],
            ),
        segment_scan(all, n).open is Some ==> is_block(segment_scan(all, n).open->0),
    decreases n,
{
    if n > 0 {
        lemma_scan_reads_blocks(all, n - 1);
        let st = segment_scan(all, n - 1);
        let line = all[n - 1];
        let next = segment_step(st, line);
        assert(is_one_line(line));
        match header_of(line) {
            Some((kind, path)) => {
                let o = next.open->0;
                assert(o.lines =~= seq![line]);
                assert forall|i: int| 0 <= i < next.done.len() implies is_block(
                    #[trigger] next.done[i],
                ) by {
                    if i < st.done.len() {
                        assert(next.done[i] == st.done[i]);
                    }
                }
            },
            None => {
                match st.open {
                    Some(o) => {
                        let p = next.open->0;
                        assert(p.lines == o.lines.push(line));
                        assert forall|i: int| 1 <= i < p.lines.len() implies header_of(
                            #[trigger] p.lines[i],
                        ) is None by {
                            if i < o.lines.len() {
                                assert(p.lines[i] == o.lines[i]);
                            }
                        }
                        assert forall|i: int| 0 <= i < p.lines.len() implies is_one_line(
                            #[trigger] p.lines[i],
                        ) by {
                            if i < o.lines.len() {
                                assert(p.lines[i] == o.lines[i]);
                            }
                        }
                        lemma_kind_after_prefix(o.lines, p.lines, o.lines.len() as int);
                    },
                    None => {},
                }
            },
        }
    }
}

/// The kind that the first lines of a block open depends on those lines alone.
proof fn lemma_kind_after_prefix(a: Seq<Seq<char>>, b: Seq<Seq<char>>, n: int)
    requires
        1 <= n <= a.len(),
        n <= b.len(),
        forall|i: int| 0 <= i < n ==> #[trigger] a[i] == b[i],
    ensures
        kind_after(a, n) == kind_after(b, n),
    decreases n,
{
    if n > 1 {
        lemma_kind_after_prefix(a, b, n - 1);
        assert(a[n - 1] == b[n - 1]);
    } else {
        assert(a[0] == b[0]);
    }
}

/// Scanning the lines of a block reads that block, and no other.
pub proof fn lemma_block_scans_to_itself(o: OpenSegment, m: int)
    requires
        is_block(o),
        1 <= m <= o.lines.len(),
    ensures
        segment_scan(o.lines, m) == (SegmentScan {
            done: Seq::empty(),
            open: Some(
                OpenSegment { path: o.path, kind: kind_after(o.lines, m), lines: o.lines.take(m) },
            ),
        }),
    decreases m,
{
    if m == 1 {
        let st = segment_scan(o.lines, 0);
        assert(flushed(st) =~= Seq::<OpenSegment>::empty());
        assert(o.lines.take(1) =~= seq![o.lines[0]]);
    } else {
        lemma_block_scans_to_itself(o, m - 1);
        assert(header_of(o.lines[m - 1]) is None);
        assert(o.lines.take(m - 1).push(o.lines[m - 1]) =~= o.lines.take(m));
    }
}

/// A segment of a patch that is rendered and read again is the segment that was
/// rendered: the text of a segment, read as a patch, has that segment and no other.
///
/// This holds of a segment whose text is the join of its own lines, which is every
/// segment but one that ends in an empty line or holds, before its last line, a line that
/// ends in a carriage return.
pub proof fn law_segment_reparses(patch: Seq<char>, i: int)
    requires
        0 <= i < segments_of(patch).len(),
        join(lines(segments_of(patch)[i].diff), seq!['\n']) == segments_of(patch)[i].diff,
    ensures
        segments_of(segments_of(patch)[i].diff) == seq![segments_of(patch)[i]],
{
    let all = lines(patch);
    lemma_lines_are_lines(patch, 0);
    lemma_scan_reads_blocks(all, all.len() as int);
    let blocks = segment_blocks(all);
    let end = segment_scan(all, all.len() as int);
    let o = blocks[i];
    assert(is_block(o)) by {
        if i < end.done.len() {
            assert(o == end.done[i]);
        }
    }
    let seg = segments_of(patch)[i];
    assert(seg == closed(o));
    let d = seg.diff;
    let again = lines(d);
    lemma_lines_are_lines(d, 0);
    lemma_join_len(o.lines);
    assert(o.lines[0].len() > 0) by {
        reveal_strlit("*** Update File: ");
        reveal_strlit("*** Add File: ");
        reveal_strlit("*** Delete File: ");
    }
    assert(again.len() >= 1);
    lemma_join_is_injective(again, o.lines);
    lemma_block_scans_to_itself(o, o.lines.len() as int);
    assert(o.lines.take(o.lines.len() as int) =~= o.lines);
    assert(segment_blocks(o.lines) =~= seq![o]);
    assert(closed_all(seq![o]) =~= seq![closed(o)]);
}

/// The lines of the first `n` segments, one segment after the other.
pub open spec fn flat_lines(blocks: Seq<OpenSegment>, n: int) -> Seq<Seq<char>>
    decreases n,
{
    if n <= 0 || n > blocks.len() {
        Seq::empty()
    } else {
        flat_lines(blocks, n - 1) + blocks[n - 1].lines
    }
}

/// The texts of some segments, joined by line feeds.
pub open spec fn rendered_together(segs: Seq<PatchFileSegmentV>) -> Seq<char> {
    join(Seq::new(segs.len(), |i: int| segs[i].diff), seq!['\n'])
}

/// A scan of some lines does not depend on the lines that follow them.
proof fn lemma_scan_prefix(a: Seq<Seq<char>>, b: Seq<Seq<char>>, k: int)
    requires
        0 <= k <= a.len(),
        k <= b.len(),
        forall|i: int| 0 <= i < k ==> #[trigger] a[i] == b[i],
    ensures
        segment_scan(a, k) == segment_scan(b, k),
    decreases k,
{
    if k > 0 {
        lemma_scan_prefix(a, b, k - 1);
        assert(a[k - 1] == b[k - 1]);
    }
}

/// A scan that comes to the lines of a block closes what was open and reads the block.
proof fn lemma_scan_continues(before: Seq<Seq<char>>, o: OpenSegment, m: int)
    requires
        is_block(o),
        1 <= m <= o.lines.len(),
    ensures
        segment_scan(before + o.lines, before.len() + m) == (SegmentScan {
            done: flushed(segment_scan(before, before.len() as int)),
            open: Some(
                OpenSegment { path: o.path, kind: kind_after(o.lines, m), lines: o.lines.take(m) },
            ),
        }),
    decreases m,
{
    let all = before + o.lines;
    let line = o.lines[m - 1];
    assert(all[before.len() + m - 1] == line);
    if m == 1 {
        lemma_scan_prefix(all, before, before.len() as int);
        assert(o.lines.take(1) =~= seq![line]);
    } else {
        lemma_scan_continues(before, o, m - 1);
        assert(header_of(line) is None);
        assert(o.lines.take(m - 1).push(line) =~= o.lines.take(m));
    }
}

/// The lines of some blocks, one block after the other, scan to these blocks.
proof fn lemma_blocks_scan(blocks: Seq<OpenSegment>, n: int)
    requires
        0 <= n <= blocks.len(),
        forall|i: int| 0 <= i < blocks.len() ==> is_block(#[trigger] blocks[i]),
    ensures
        segment_blocks(flat_lines(blocks, n)) == blocks.take(n),
    decreases n,
{
    if n == 0 {
        assert(segment_blocks(flat_lines(blocks, 0)) =~= blocks.take(0));
    } else {
        lemma_blocks_scan(blocks, n - 1);
        let before = flat_lines(blocks, n - 1);
        let o = blocks[n - 1];
        assert(is_block(o));
        lemma_scan_continues(before, o, o.lines.len() as int);
        assert(o.lines.take(o.lines.len() as int) =~= o.lines);
        assert(blocks.take(n - 1).push(o) =~= blocks.take(n));
    }
}

/// The join of two lists of texts is the join of the first, the separator, and the
/// join of the second.
proof fn lemma_join_concat(a: Seq<Seq<char>>, b: Seq<Seq<char>>, sep: Seq<char>)
    requires
        a.len() >= 1,
        b.len() >= 1,
    ensures
        join(a + b, sep) == join(a, sep) + sep + join(b, sep),
    decreases b.len(),
{
    if b.len() == 1 {
        assert((a + b).drop_last() =~= a);
    } else {
        lemma_join_concat(a, b.drop_last(), sep);
        assert((a + b).drop_last() =~= a + b.drop_last());
        assert(join(a + b, sep) =~= join(a, sep) + sep + join(b, sep));
    }
}

/// The lines of some blocks are lines, and there is at least one for each block.
proof fn lemma_flat_lines(blocks: Seq<OpenSegment>, n: int)
    requires
        0 <= n <= blocks.len(),
        forall|i: int| 0 <= i < blocks.len() ==> is_block(#[trigger] blocks[i]),
    ensures
        are_lines(flat_lines(blocks, n)),
        flat_lines(blocks, n).len() >= n,
        n >= 1 ==> flat_lines(blocks, n)[0] == blocks[0].lines[0],
    decreases n,
{
    if n > 0 {
        lemma_flat_lines(blocks, n - 1);
        let before = flat_lines(blocks, n - 1);
        let o = blocks[n - 1];
        assert(is_block(o));
        assert forall|i: int| 0 <= i < (before + o.lines).len() implies is_one_line(
            #[trigger] (before + o.lines)[i],
        ) by {
            if i < before.len() {
                assert(is_one_line(before[i]));
            } else {
                assert(is_one_line(o.lines[i - before.len()]));
            }
        }
    }
}

/// The texts of some blocks, joined, are their lines, joined.
proof fn lemma_join_flat(blocks: Seq<OpenSegment>, n: int)
    requires
        1 <= n <= blocks.len(),
        forall|i: int| 0 <= i < blocks.len() ==> is_block(#[trigger] blocks[i]),
    ensures
        join(flat_lines(blocks, n), seq!['\n']) == join(
            Seq::new(n as nat, |i: int| join(blocks[i].lines, seq!['\n'])),
            seq!['\n'],
        ),
    decreases n,
{
    let sep = seq!['\n'];
    let texts = Seq::new(n as nat, |i: int| join(blocks[i].lines, sep));
    let o = blocks[n - 1];
    assert(is_block(o));
    if n == 1 {
        assert(flat_lines(blocks, 1) =~= o.lines);
    } else {
        lemma_join_flat(blocks, n - 1);
        lemma_flat_lines(blocks, n - 1);
        lemma_join_concat(flat_lines(blocks, n - 1), o.lines, sep);
        assert(texts.drop_last() =~= Seq::new((n - 1) as nat, |i: int| join(blocks[i].lines, sep)));
    }
}

/// The segments of a patch, rendered one after the other and read again, are the
/// segments that were rendered: as many, with the same path, kind and text at every
/// place.
///
/// This holds of segments whose joined text is the join of its own lines, which is
/// every patch but one whose last segment ends in an empty line or one that holds,
/// before its last line, a line that ends in a carriage return.
pub proof fn law_segments_reparse_together(patch: Seq<char>)
    requires
        segments_of(patch).len() >= 1,
        join(lines(rendered_together(segments_of(patch))), seq!['\n']) == rendered_together(
            segments_of(patch),
        ),
    ensures
        segments_of(rendered_together(segments_of(patch))) == segments_of(patch),
{
    let all = lines(patch);
    lemma_lines_are_lines(patch, 0);
    lemma_scan_reads_blocks(all, all.len() as int);
    let blocks = segment_blocks(all);
    let end = segment_scan(all, all.len() as int);
    assert forall|i: int| 0 <= i < blocks.len() implies is_block(#[trigger] blocks[i]) by {
        if i < end.done.len() {
            assert(blocks[i] == end.done[i]);
        }
    }
    let n = blocks.len() as int;
    let segs = segments_of(patch);
    let text = rendered_together(segs);
    let flat = flat_lines(blocks, n);
    lemma_join_flat(blocks, n);
    lemma_flat_lines(blocks, n);
    assert(Seq::new(segs.len(), |i: int| segs[i].diff) =~= Seq::new(
        n as nat,
        |i: int| join(blocks[i].lines, seq!['\n']),
    ));
    assert(join(flat, seq!['\n']) == text);
    let again = lines(text);
    lemma_lines_are_lines(text, 0);
    lemma_join_len(flat);
    assert(is_block(blocks[0]));
    assert(flat[0].len() > 0) by {
        reveal_strlit("*** Update File: ");
        reveal_strlit("*** Add File: ");
        reveal_strlit("*** Delete File: ");
    }
    assert(again.len() >= 1);
    lemma_join_is_injective(again, flat);
    lemma_blocks_scan(blocks, n);
    assert(blocks.take(n) =~= blocks);
}

} // verus!
