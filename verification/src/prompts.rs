//! The head of a prompt file: what it says of the prompt and of its arguments.

use vstd::prelude::*;
use crate::split::{lines, split_lines, texts};
use crate::text::{
    chars_of, find, find_text, has_prefix, is_whitespace, opt_view, starts_with_str, string_of,
    sub_text, trim, trim_start, trim_text,
};

verus! {

/// The end of the run of `c` that begins at `from`.
pub open spec fn lead_run(s: Seq<char>, c: char, from: int) -> int
    decreases s.len() - from,
{
    if 0 <= from < s.len() && s[from] == c {
        lead_run(s, c, from + 1)
    } else {
        from
    }
}

/// The beginning of the run of `c` that ends at `upto`, looking no further back than
/// `lo`.
pub open spec fn trail_run(s: Seq<char>, c: char, lo: int, upto: int) -> int
    decreases upto,
{
    if 0 <= lo < upto <= s.len() && s[upto - 1] == c {
        trail_run(s, c, lo, upto - 1)
    } else {
        upto
    }
}

/// `s` without the characters `c` at its beginning and at its end.
pub open spec fn strip_char(s: Seq<char>, c: char) -> Seq<char> {
    let lo = lead_run(s, c, 0);
    s.subrange(lo, trail_run(s, c, lo, s.len() as int))
}

/// Takes the characters `c` from the beginning and the end of `v`.
pub fn strip_char_text(v: &Vec<char>, c: char) -> (out: Vec<char>)
    ensures
        out@ == strip_char(v@, c),
{
    let n = v.len();
    let mut lo: usize = 0;
    while lo < n && v[lo] == c
        invariant
            lo <= n,
            n == v.len(),
            lead_run(v@, c, 0) == lead_run(v@, c, lo as int),
        decreases n - lo,
    {
        lo += 1;
    }
    let mut hi: usize = n;
    while hi > lo && v[hi - 1] == c
        invariant
            lo <= hi <= n,
            n == v.len(),
            lead_run(v@, c, 0) == lo,
            trail_run(v@, c, lo as int, n as int) == trail_run(v@, c, lo as int, hi as int),
        decreases hi,
    {
        hi -= 1;
    }
    sub_text(v, lo, hi)
}

/// A value of the head: without the white space around it, and then without the
/// double and the single quotes around that.
pub open spec fn unquoted(s: Seq<char>) -> Seq<char> {
    strip_char(strip_char(trim(s), '"'), '\'')
}

/// Reads a value of the head.
fn unquote(v: &Vec<char>) -> (out: String)
    ensures
        out@ == unquoted(v@),
{
    let t = trim_text(v);
    let a = strip_char_text(&t, '"');
    let b = strip_char_text(&a, '\'');
    string_of(&b)
}

/// What the head of a prompt file says.
pub struct FrontmatterV {
    pub description: Option<Seq<char>>,
    pub argument_hint: Option<Seq<char>>,
}

/// What the head says after one more of its lines: a line that begins with
/// `description:` or `argument-hint:`, white space aside, sets that value.
pub open spec fn front_line(st: FrontmatterV, raw: Seq<char>) -> FrontmatterV {
    let line = trim(raw);
    if has_prefix(line, "description:"@) {
        FrontmatterV { description: Some(unquoted(line.skip(12))), ..st }
    } else if has_prefix(line, "argument-hint:"@) {
        FrontmatterV { argument_hint: Some(unquoted(line.skip(14))), ..st }
    } else {
        st
    }
}

/// What the first `n` lines of the head say.
pub open spec fn front_lines(all: Seq<Seq<char>>, n: int) -> FrontmatterV
    decreases n,
{
    if n <= 0 || n > all.len() {
        FrontmatterV { description: None, argument_hint: None }
    } else {
        front_line(front_lines(all, n - 1), all[n - 1])
    }
}

/// What the head of a prompt file says. The file has a head where it begins, white
/// space aside, with `---`; the head ends before the first line that begins with `---`.
/// A file without a head, or whose head does not end, says nothing.
pub open spec fn frontmatter_of(content: Seq<char>) -> FrontmatterV {
    let t = trim_start(content);
    if !has_prefix(t, "---"@) {
        FrontmatterV { description: None, argument_hint: None }
    } else {
        match find(t.skip(3), "\n---"@) {
            None => FrontmatterV { description: None, argument_hint: None },
            Some(pos) => {
                let all = lines(t.skip(3).take(pos));
                front_lines(all, all.len() as int)
            },
        }
    }
}

/// Reads the head of a prompt file: the description of the prompt, and the hint on
/// its arguments.
pub fn parse_prompt_frontmatter(content: &str) -> (r: (Option<String>, Option<String>))
    ensures
        opt_view(r.0) == frontmatter_of(content@).description,
        opt_view(r.1) == frontmatter_of(content@).argument_hint,
{
    let v = chars_of(content);
    let n = v.len();
    let mut start: usize = 0;
    proof {
        assert(v@.skip(0) =~= v@);
    }
    while start < n && is_whitespace(v[start])
        invariant
            start <= n,
            n == v.len(),
            trim_start(v@) == trim_start(v@.skip(start as int)),
        decreases n - start,
    {
        proof {
            assert(v@.skip(start as int).drop_first() =~= v@.skip(start as int + 1));
        }
        start += 1;
    }
    proof {
        if start < n {
            assert(v@.skip(start as int)[0] == v@[start as int]);
        }
        assert(trim_start(v@) == v@.skip(start as int));
    }
    let t = sub_text(&v, start, n);
    proof {
        assert(t@ =~= v@.skip(start as int));
        reveal_strlit("---");
        reveal_strlit("description:");
        reveal_strlit("argument-hint:");
    }
    if !starts_with_str(&t, "---") {
        return (None, None);
    }
    let after = sub_text(&t, 3, t.len());
    proof {
        assert(after@ =~= t@.skip(3));
    }
    let pos = match find_text(&after, &chars_of("\n---")) {
        Some(p) => p,
        None => {
            return (None, None);
        },
    };
    proof {
        crate::text::lemma_find_from(after@, "\n---"@, 0);
    }
    let front = sub_text(&after, 0, pos);
    proof {
        assert(front@ =~= after@.take(pos as int));
    }
    let all = split_lines(&front);
    let mut description: Option<String> = None;
    let mut argument_hint: Option<String> = None;
    let mut i: usize = 0;
    while i < all.len()
        invariant
            i <= all.len(),
            opt_view(description) == front_lines(texts(all@), i as int).description,
            opt_view(argument_hint) == front_lines(texts(all@), i as int).argument_hint,
            "description:"@.len() == 12,
            "argument-hint:"@.len() == 14,
        decreases all.len() - i,
    {
        proof {
            assert(texts(all@)[i as int] == all@[i as int]@);
        }
        let line = trim_text(&all[i]);
        if starts_with_str(&line, "description:") {
            let rest = sub_text(&line, 12, line.len());
            proof {
                assert(rest@ =~= line@.skip(12));
            }
            description = Some(unquote(&rest));
        } else if starts_with_str(&line, "argument-hint:") {
            let rest = sub_text(&line, 14, line.len());
            proof {
                assert(rest@ =~= line@.skip(14));
            }
            argument_hint = Some(unquote(&rest));
        }
        i += 1;
    }
    (description, argument_hint)
}

} // verus!
