//! Paths as text, and the layout of a workspace on disk.
//!
//! A path is a text whose parts are separated by `/`. A path that begins with `/` is
//! absolute.

use vstd::prelude::*;
use crate::split::{join, join_texts, lemma_texts_push, texts};
use crate::text::{
    append_text, chars_of, find_char_from, index_of_char, string_of, sub_text, text_eq,
};

verus! {

/// The path begins at the root.
pub open spec fn is_absolute(path: Seq<char>) -> bool {
    path.len() > 0 && path[0] == '/'
}

/// `seg` below `base`: an absolute `seg` stands for itself; otherwise it follows `base`,
/// after a separator unless `base` is empty or ends with one.
pub open spec fn joined(base: Seq<char>, seg: Seq<char>) -> Seq<char> {
    if is_absolute(seg) {
        seg
    } else if base.len() == 0 || base.last() == '/' {
        base + seg
    } else {
        base + seq!['/'] + seg
    }
}

/// Joins a path and a further part.
pub fn join_path(base: &str, seg: &str) -> (r: String)
    ensures
        r@ == joined(base@, seg@),
{
    let b = chars_of(base);
    let s = chars_of(seg);
    if s.len() > 0 && s[0] == '/' {
        return string_of(&s);
    }
    let mut out = b;
    if out.len() > 0 && out[out.len() - 1] != '/' {
        out.push('/');
    }
    append_text(&mut out, &s);
    proof {
        assert(out@ =~= joined(base@, seg@));
    }
    string_of(&out)
}

/// The pieces of `s` between the occurrences of `c`, from `from` on. A text of `n`
/// occurrences has `n + 1` pieces, some of them empty.
pub open spec fn pieces_from(s: Seq<char>, c: char, from: int) -> Seq<Seq<char>>
    decreases s.len() - from,
{
    if from < 0 || from > s.len() {
        Seq::empty()
    } else {
        let k = index_of_char(s, c, from);
        if k >= s.len() {
            seq![s.subrange(from, s.len() as int)]
        } else if k < from {
            Seq::empty()
        } else {
            seq![s.subrange(from, k)] + pieces_from(s, c, k + 1)
        }
    }
}

/// The pieces of `s` between the occurrences of `c`.
pub open spec fn pieces(s: Seq<char>, c: char) -> Seq<Seq<char>> {
    pieces_from(s, c, 0)
}

/// Splits `v` at every `c`.
pub fn split_at_char(v: &Vec<char>, c: char) -> (out: Vec<Vec<char>>)
    ensures
        texts(out@) == pieces(v@, c),
{
    let mut out: Vec<Vec<char>> = Vec::new();
    let mut start: usize = 0;
    proof {
        assert(texts(out@) =~= Seq::<Seq<char>>::empty());
    }
    loop
        invariant_except_break
            pieces(v@, c) == texts(out@) + pieces_from(v@, c, start as int),
        invariant
            start <= v.len(),
        ensures
            texts(out@) == pieces(v@, c),
        decreases v.len() - start,
    {
        let k = find_char_from(v, c, start);
        let piece = sub_text(v, start, k);
        let ghost before = out@;
        out.push(piece);
        proof {
            lemma_texts_push(before, piece);
        }
        if k >= v.len() {
            proof {
                assert(texts(before) + seq![piece@] =~= texts(out@));
            }
            break;
        }
        proof {
            assert(texts(before) + (seq![piece@] + pieces_from(v@, c, k + 1)) =~= texts(out@)
                + pieces_from(v@, c, k + 1));
        }
        start = k + 1;
    }
    out
}

/// The text is the single character `.`.
pub open spec fn is_dot(part: Seq<char>) -> bool {
    part.len() == 1 && part[0] == '.'
}

/// The parts that count among the first `n` pieces of a path: empty pieces are dropped,
/// and so is `.`, unless it is the first piece.
pub open spec fn counted_parts(all: Seq<Seq<char>>, n: int) -> Seq<Seq<char>>
    decreases n,
{
    if n <= 0 || n > all.len() {
        Seq::empty()
    } else {
        let rest = counted_parts(all, n - 1);
        let p = all[n - 1];
        if p.len() == 0 || (is_dot(p) && n > 1) {
            rest
        } else {
            rest.push(p)
        }
    }
}

/// The parts of a path.
pub open spec fn parts_of(path: Seq<char>) -> Seq<Seq<char>> {
    counted_parts(pieces(path, '/'), pieces(path, '/').len() as int)
}

/// Splits a path into its parts.
pub fn path_parts(path: &Vec<char>) -> (out: Vec<Vec<char>>)
    ensures
        texts(out@) == parts_of(path@),
{
    let all = split_at_char(path, '/');
    let mut out: Vec<Vec<char>> = Vec::new();
    proof {
        assert(texts(out@) =~= Seq::<Seq<char>>::empty());
    }
    let mut i: usize = 0;
    while i < all.len()
        invariant
            i <= all.len(),
            texts(all@) == pieces(path@, '/'),
            texts(out@) == counted_parts(texts(all@), i as int),
        decreases all.len() - i,
    {
        let p = &all[i];
        proof {
            assert(texts(all@)[i as int] == p@);
        }
        let dot = p.len() == 1 && p[0] == '.';
        if p.len() == 0 || (dot && i > 0) {
        } else {
            let c = sub_text(p, 0, p.len());
            proof {
                assert(c@ =~= p@);
                lemma_texts_push(out@, c);
            }
            out.push(c);
        }
        i += 1;
    }
    out
}

/// `path` as seen from `base`: `.` where they name the same place, `./` and the
/// remaining parts where `path` lies below `base`, and `path` itself where it does not.
/// Two paths are compared part by part, and an absolute path lies below absolute paths
/// only.
pub open spec fn portable(base: Seq<char>, path: Seq<char>) -> Seq<char> {
    let b = parts_of(base);
    let p = parts_of(path);
    if is_absolute(base) == is_absolute(path) && b.len() <= p.len() && p.take(b.len() as int)
        == b {
        if b.len() == p.len() {
            seq!['.']
        } else {
            seq!['.', '/'] + join(p.skip(b.len() as int), seq!['/'])
        }
    } else {
        path
    }
}

/// Writes `path` relative to `base_dir` where it lies below it.
pub fn path_to_portable_string(base_dir: &str, path: &str) -> (r: String)
    ensures
        r@ == portable(base_dir@, path@),
{
    let bv = chars_of(base_dir);
    let pv = chars_of(path);
    let b = path_parts(&bv);
    let p = path_parts(&pv);
    let b_abs = bv.len() > 0 && bv[0] == '/';
    let p_abs = pv.len() > 0 && pv[0] == '/';
    if b_abs != p_abs || b.len() > p.len() {
        return string_of(&pv);
    }
    let mut i: usize = 0;
    while i < b.len()
        invariant
            i <= b.len() <= p.len(),
            texts(p@).take(i as int) == texts(b@).take(i as int),
            pv@ == path@,
            texts(b@) == parts_of(base_dir@),
            texts(p@) == parts_of(path@),
            is_absolute(base_dir@) == is_absolute(path@),
        decreases b.len() - i,
    {
        if !text_eq(&b[i], &p[i]) {
            proof {
                assert(texts(p@).take(b.len() as int)[i as int] == p@[i as int]@);
                assert(texts(b@)[i as int] == b@[i as int]@);
            }
            return string_of(&pv);
        }
        proof {
            assert(texts(p@).take(i as int + 1) =~= texts(p@).take(i as int).push(p@[i as int]@));
            assert(texts(b@).take(i as int + 1) =~= texts(b@).take(i as int).push(b@[i as int]@));
        }
        i += 1;
    }
    proof {
        assert(texts(b@).take(b.len() as int) =~= texts(b@));
    }
    if b.len() == p.len() {
        let mut out: Vec<char> = Vec::new();
        out.push('.');
        proof {
            assert(out@ =~= seq!['.']);
        }
        return string_of(&out);
    }
    let mut rest: Vec<Vec<char>> = Vec::new();
    let mut j: usize = b.len();
    proof {
        assert(texts(rest@) =~= texts(p@).subrange(b.len() as int, j as int));
    }
    while j < p.len()
        invariant
            b.len() <= j <= p.len(),
            texts(rest@) == texts(p@).subrange(b.len() as int, j as int),
        decreases p.len() - j,
    {
        let c = sub_text(&p[j], 0, p[j].len());
        proof {
            assert(c@ =~= p@[j as int]@);
            lemma_texts_push(rest@, c);
            assert(texts(p@).subrange(b.len() as int, j as int + 1) =~= texts(p@).subrange(
                b.len() as int,
                j as int,
            ).push(p@[j as int]@));
        }
        rest.push(c);
        j += 1;
    }
    proof {
        assert(texts(p@).subrange(b.len() as int, p.len() as int) =~= texts(p@).skip(
            b.len() as int,
        ));
    }
    let mut sep: Vec<char> = Vec::new();
    sep.push('/');
    let tail = join_texts(&rest, &sep);
    let mut out: Vec<char> = Vec::new();
    out.push('.');
    out.push('/');
    append_text(&mut out, &tail);
    proof {
        assert(sep@ =~= seq!['/']);
        assert(out@ =~= seq!['.', '/'] + tail@);
    }
    string_of(&out)
}

/// The directory of a workspace in which its tasks live.
pub open spec fn tasks_dir_of(root: Seq<char>) -> Seq<char> {
    joined(joined(root, ".coco"@), "tasks"@)
}

/// The directory of a task.
pub open spec fn task_dir_of(root: Seq<char>, task_id: Seq<char>) -> Seq<char> {
    joined(tasks_dir_of(root), task_id)
}

/// The directory of an agent of a task.
pub open spec fn agent_dir_of(task_dir: Seq<char>, agent: Seq<char>) -> Seq<char> {
    joined(joined(task_dir, "agents"@), agent)
}

/// The directory of an agent of a task.
pub fn agent_dir(task_dir: &str, agent_instance: &str) -> (r: String)
    ensures
        r@ == agent_dir_of(task_dir@, agent_instance@),
{
    let agents = join_path(task_dir, "agents");
    join_path(agents.as_str(), agent_instance)
}

/// Joins a path and two further parts.
pub fn join_path2(base: &str, first: &str, second: &str) -> (r: String)
    ensures
        r@ == joined(joined(base@, first@), second@),
{
    let a = join_path(base, first);
    join_path(a.as_str(), second)
}

/// A path given in a plan: where it is missing or blank, `default_base`; where it is
/// absolute, itself; else the path below `default_base`.
pub open spec fn resolved_path(value: Option<Seq<char>>, default_base: Seq<char>) -> Seq<char> {
    match value {
        None => default_base,
        Some(v) => if crate::text::trim(v).len() == 0 {
            default_base
        } else {
            joined(default_base, v)
        },
    }
}

/// Resolves a path given in a plan against `default_base`.
pub fn resolve_optional_path(value: &Option<String>, default_base: &str) -> (r: String)
    ensures
        r@ == resolved_path(crate::text::opt_view(*value), default_base@),
{
    match value {
        None => crate::text::owned(default_base),
        Some(v) => {
            let t = chars_of(v.as_str());
            if crate::text::is_blank_text(&t) {
                crate::text::owned(default_base)
            } else {
                join_path(default_base, v.as_str())
            }
        },
    }
}

} // verus!
