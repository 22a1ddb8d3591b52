//! Titles for threads, derived from the first words of a conversation.

use vstd::prelude::*;
use crate::split::{collapse_spaces, collapse_whitespace};
use crate::text::{
    append_text, chars_of, find, find_text, is_space, is_whitespace, string_of, sub_text, trim,
    trim_text,
};

verus! {

/// The first `max_chars` characters of `value`.
pub fn truncate_unicode_chars(value: &str, max_chars: usize) -> (out: String)
    ensures
        out@ == if value@.len() <= max_chars {
            value@
        } else {
            value@.take(max_chars as int)
        },
{
    let v = chars_of(value);
    if v.len() <= max_chars {
        return string_of(&v);
    }
    let cut = sub_text(&v, 0, max_chars);
    string_of(&cut)
}

/// A character of the Chinese, Japanese and Korean blocks that count as one unit each.
pub open spec fn is_cjk(c: char) -> bool {
    let n = c as u32;
    ||| 0x2E80 <= n <= 0x2EFF
    ||| 0x3000 <= n <= 0x303F
    ||| 0x31C0 <= n <= 0x31EF
    ||| 0x3400 <= n <= 0x4DBF
    ||| 0x4E00 <= n <= 0x9FFF
    ||| 0xF900 <= n <= 0xFAFF
    ||| 0xFF00 <= n <= 0xFFEF
    ||| 0x20000 <= n <= 0x2A6DF
    ||| 0x2A700 <= n <= 0x2B73F
    ||| 0x2B740 <= n <= 0x2B81F
    ||| 0x2B820 <= n <= 0x2CEAF
    ||| 0x2CEB0 <= n <= 0x2EBEF
    ||| 0x2F800 <= n <= 0x2FA1F
}

/// Tells whether `value` counts as one unit by itself.
pub fn is_cjk_char(value: char) -> (r: bool)
    ensures
        r == is_cjk(value),
{
    let n: u32 = value as u32;
    (0x2E80 <= n && n <= 0x2EFF) || (0x3000 <= n && n <= 0x303F) || (0x31C0 <= n && n <= 0x31EF)
        || (0x3400 <= n && n <= 0x4DBF) || (0x4E00 <= n && n <= 0x9FFF) || (0xF900 <= n && n
        <= 0xFAFF) || (0xFF00 <= n && n <= 0xFFEF) || (0x20000 <= n && n <= 0x2A6DF) || (0x2A700
        <= n && n <= 0x2B73F) || (0x2B740 <= n && n <= 0x2B81F) || (0x2B820 <= n && n <= 0x2CEAF)
        || (0x2CEB0 <= n && n <= 0x2EBEF) || (0x2F800 <= n && n <= 0x2FA1F)
}

/// The index just past the word that holds the index `from - 1`: the first index at or
/// after `from` of white space or of a character that is a unit by itself.
pub open spec fn token_end(s: Seq<char>, from: int) -> int
    decreases s.len() - from,
{
    if from < 0 || from >= s.len() {
        s.len() as int
    } else if is_space(s[from]) || is_cjk(s[from]) {
        from
    } else {
        token_end(s, from + 1)
    }
}

/// What is kept of `s` from index `i` on, after `out` was kept and `units` units were
/// counted: white space becomes one blank, never at the start and never twice in a row;
/// a character that is a unit by itself and a word each count as one unit; the text ends
/// before the unit that would exceed `max`.
pub open spec fn kept_units(s: Seq<char>, i: int, out: Seq<char>, units: nat, max: nat) -> Seq<
    char,
>
    decreases s.len() - i,
{
    if i < 0 || i >= s.len() {
        out
    } else if is_space(s[i]) {
        kept_units(
            s,
            i + 1,
            if out.len() > 0 && out.last() != ' ' {
                out.push(' ')
            } else {
                out
            },
            units,
            max,
        )
    } else if units >= max {
        out
    } else if is_cjk(s[i]) {
        kept_units(s, i + 1, out.push(s[i]), units + 1, max)
    } else {
        let e = token_end(s, i + 1);
        if e <= i || e > s.len() {
            out
        } else {
            kept_units(s, e, out + s.subrange(i, e), units + 1, max)
        }
    }
}

/// `s` cut to at most `max` units.
pub open spec fn truncated_units(s: Seq<char>, max: nat) -> Seq<char> {
    if max == 0 {
        Seq::empty()
    } else {
        trim(kept_units(s, 0, Seq::empty(), 0, max))
    }
}

/// Cuts `value` to at most `max_units` units, where a word counts as one unit and so
/// does each Chinese, Japanese or Korean character.
pub fn truncate_mixed_cjk_or_word(value: &str, max_units: usize) -> (out: String)
    ensures
        out@ == truncated_units(value@, max_units as nat),
{
    if max_units == 0 {
        return String::new();
    }
    let v = chars_of(value);
    let mut out: Vec<char> = Vec::new();
    let mut units: usize = 0;
    let mut i: usize = 0;
    while i < v.len()
        invariant
            i <= v.len(),
            units <= i,
            v@ == value@,
            kept_units(v@, 0, Seq::empty(), 0, max_units as nat) == kept_units(
                v@,
                i as int,
                out@,
                units as nat,
                max_units as nat,
            ),
        ensures
            out@ == kept_units(v@, 0, Seq::empty(), 0, max_units as nat),
        decreases v.len() - i,
    {
        let ch = v[i];
        if is_whitespace(ch) {
            if out.len() > 0 && out[out.len() - 1] != ' ' {
                out.push(' ');
            }
            i += 1;
            continue;
        }
        if units >= max_units {
            break;
        }
        if is_cjk_char(ch) {
            out.push(ch);
            units += 1;
            i += 1;
            continue;
        }
        let mut e: usize = i + 1;
        while e < v.len() && !is_whitespace(v[e]) && !is_cjk_char(v[e])
            invariant
                i < e <= v.len(),
                token_end(v@, i as int + 1) == token_end(v@, e as int),
            decreases v.len() - e,
        {
            e += 1;
        }
        let token = sub_text(&v, i, e);
        append_text(&mut out, &token);
        units += 1;
        i = e;
    }
    let t = trim_text(&out);
    string_of(&t)
}

/// The marker after which the request proper begins.
pub open spec fn request_marker() -> Seq<char> {
    "## My request for Codex:"@
}

/// The same marker, written with a full-width colon.
pub open spec fn request_marker_fullwidth() -> Seq<char> {
    "## My request for Codex\u{ff1a}"@
}

/// The part of a trimmed preview that the title is made of: what follows the first
/// marker, where there is one, else all of it.
pub open spec fn title_source(trimmed: Seq<char>) -> Seq<char> {
    match find(trimmed, request_marker()) {
        Some(i) => trimmed.skip(i + request_marker().len()),
        None => match find(trimmed, request_marker_fullwidth()) {
            Some(i) => trimmed.skip(i + request_marker_fullwidth().len()),
            None => trimmed,
        },
    }
}

/// The title for a preview: its source with white space collapsed, cut to fifty units;
/// none where nothing is left.
pub open spec fn auto_title(preview: Seq<char>) -> Option<Seq<char>> {
    let trimmed = trim(preview);
    if trimmed.len() == 0 {
        None
    } else {
        let normalized = trim(collapse_spaces(title_source(trimmed)));
        if normalized.len() == 0 {
            None
        } else {
            let title = trim(truncated_units(normalized, 50));
            if title.len() == 0 {
                None
            } else {
                Some(title)
            }
        }
    }
}

/// Derives the title of a thread from the preview of its first message.
pub fn derive_auto_thread_title_from_preview(preview: &str) -> (r: Option<String>)
    ensures
        match r {
            Some(t) => auto_title(preview@) == Some(t@),
            None => auto_title(preview@) is None,
        },
{
    let raw = chars_of(preview);
    let trimmed = trim_text(&raw);
    if trimmed.len() == 0 {
        return None;
    }
    let marker = chars_of("## My request for Codex:");
    let marker_fullwidth = chars_of("## My request for Codex\u{ff1a}");
    let extracted = match find_text(&trimmed, &marker) {
        Some(i) => {
            proof {
                crate::text::lemma_find_from(trimmed@, marker@, 0);
                assert(trimmed@.skip(i + marker@.len()) =~= trimmed@.subrange(
                    i + marker@.len(),
                    trimmed@.len() as int,
                ));
            }
            sub_text(&trimmed, i + marker.len(), trimmed.len())
        },
        None => match find_text(&trimmed, &marker_fullwidth) {
            Some(i) => {
                proof {
                    crate::text::lemma_find_from(trimmed@, marker_fullwidth@, 0);
                    assert(trimmed@.skip(i + marker_fullwidth@.len()) =~= trimmed@.subrange(
                        i + marker_fullwidth@.len(),
                        trimmed@.len() as int,
                    ));
                }
                sub_text(&trimmed, i + marker_fullwidth.len(), trimmed.len())
            },
            None => trimmed,
        },
    };
    let collapsed = collapse_whitespace(&extracted);
    let normalized = trim_text(&collapsed);
    if normalized.len() == 0 {
        return None;
    }
    let normalized_str = string_of(&normalized);
    let truncated = truncate_mixed_cjk_or_word(normalized_str.as_str(), 50);
    let truncated_chars = chars_of(truncated.as_str());
    let title = trim_text(&truncated_chars);
    if title.len() == 0 {
        None
    } else {
        Some(string_of(&title))
    }
}

/// Collapses every run of white space in a text to one blank, and drops the white
/// space at its ends.
pub fn collapse_whitespace_to_single_spaces(value: &str) -> (r: String)
    ensures
        r@ == collapse_spaces(value@),
{
    let v = chars_of(value);
    let out = collapse_whitespace(&v);
    string_of(&out)
}

} // verus!
