//! The items of activity that a rollout log is read into, and the small readers that
//! they are built with.

use vstd::prelude::*;
use crate::json::{empty_object, lemma_list_view, list_view, parse, parsed_json, Json, JsonV};
use crate::split::{collapse_spaces, collapse_whitespace};
use crate::text::{
    ascii_alphanumeric, ascii_lower, chars_of, copy_string, find_char_from, has_prefix,
    index_of_char, is_ascii_alnum, lemma_views_push, opt_view, owned, starts_with_str, string_of,
    sub_text, to_ascii_lower, trim, trim_text, views,
};

verus! {

/// The status of an item in the form that listeners know: `inProgress` for either way
/// of writing it, `completed`, `failed` and `declined` for themselves, and `completed`
/// for anything else.
pub open spec fn status_of(status: Seq<char>) -> Seq<char> {
    if status == "in_progress"@ || status == "inProgress"@ {
        "inProgress"@
    } else if status == "failed"@ {
        "failed"@
    } else if status == "declined"@ {
        "declined"@
    } else {
        "completed"@
    }
}

/// Brings a status into the form that listeners know.
pub fn normalize_status(status: &str) -> (r: &'static str)
    ensures
        r@ == status_of(status@),
{
    let s = chars_of(status);
    let a = chars_of("in_progress");
    let b = chars_of("inProgress");
    let failed = chars_of("failed");
    let declined = chars_of("declined");
    if crate::text::text_eq(&s, &a) || crate::text::text_eq(&s, &b) {
        "inProgress"
    } else if crate::text::text_eq(&s, &failed) {
        "failed"
    } else if crate::text::text_eq(&s, &declined) {
        "declined"
    } else {
        "completed"
    }
}

/// The text holds the character `c`.
pub open spec fn has_char(s: Seq<char>, c: char) -> bool {
    index_of_char(s, c, 0) < s.len()
}

/// The name is that of a tool of an MCP server: it holds a dot and does not begin with
/// `container.`, `web.` or `browser.`.
pub open spec fn is_mcp_name(name: Seq<char>) -> bool {
    has_char(name, '.') && !has_prefix(name, "container."@) && !has_prefix(name, "web."@)
        && !has_prefix(name, "browser."@)
}

/// Tells whether a name is that of a tool of an MCP server.
pub fn looks_like_mcp_tool_name(name: &str) -> (r: bool)
    ensures
        r == is_mcp_name(name@),
{
    let v = chars_of(name);
    if find_char_from(&v, '.', 0) >= v.len() {
        return false;
    }
    !(starts_with_str(&v, "container.") || starts_with_str(&v, "web.") || starts_with_str(
        &v,
        "browser.",
    ))
}

/// The server and the tool that a name stands for: what stands before its first dot and
/// what stands after it, both trimmed; nothing where there is no dot or either is blank.
pub open spec fn mcp_parts(name: Seq<char>) -> Option<(Seq<char>, Seq<char>)> {
    let dot = index_of_char(name, '.', 0);
    if dot >= name.len() {
        None
    } else {
        let server = trim(name.take(dot));
        let tool = trim(name.skip(dot + 1));
        if server.len() == 0 || tool.len() == 0 {
            None
        } else {
            Some((server, tool))
        }
    }
}

/// Splits the name of a tool of an MCP server into the server and the tool.
pub fn split_mcp_tool_name(name: &str) -> (r: Option<(String, String)>)
    ensures
        match r {
            Some((server, tool)) => mcp_parts(name@) == Some((server@, tool@)),
            None => mcp_parts(name@) is None,
        },
{
    let v = chars_of(name);
    let dot = find_char_from(&v, '.', 0);
    if dot >= v.len() {
        return None;
    }
    let left = sub_text(&v, 0, dot);
    let right = sub_text(&v, dot + 1, v.len());
    proof {
        assert(name@.take(dot as int) =~= left@);
        assert(name@.skip(dot + 1) =~= right@);
    }
    let server = trim_text(&left);
    let tool = trim_text(&right);
    if server.len() == 0 || tool.len() == 0 {
        return None;
    }
    Some((string_of(&server), string_of(&tool)))
}

/// The text of a value: a string is its own text, and an object has the text of its
/// string `text`.
pub open spec fn text_of(value: JsonV) -> Option<Seq<char>> {
    match value {
        JsonV::Str(s) => Some(s),
        JsonV::Object(_) => value.text_at("text"@),
        _ => None,
    }
}

/// Reads the text of a value.
pub fn extract_text_value(value: &Json) -> (r: Option<String>)
    ensures
        opt_view(r) == text_of(value@),
{
    match value {
        Json::Str(s) => Some(copy_string(s)),
        Json::Object(_) => match value.str_at("text") {
            Some(s) => Some(copy_string(s)),
            None => None,
        },
        _ => None,
    }
}

/// The texts of the values among `items` that have one, in order.
pub open spec fn texts_among(items: Seq<JsonV>) -> Seq<Seq<char>>
    decreases items.len(),
{
    if items.len() == 0 {
        Seq::empty()
    } else {
        match text_of(items.last()) {
            Some(t) => texts_among(items.drop_last()).push(t),
            None => texts_among(items.drop_last()),
        }
    }
}

/// The texts that a value lists: those of the items of an array, the one of any other
/// value that has a text, and none for a missing value.
pub open spec fn text_list_of(value: Option<JsonV>) -> Seq<Seq<char>> {
    match value {
        Some(JsonV::Array(items)) => texts_among(items),
        Some(other) => match text_of(other) {
            Some(t) => seq![t],
            None => Seq::empty(),
        },
        None => Seq::empty(),
    }
}

/// Reads the texts that a value lists.
pub fn extract_text_list(value: Option<&Json>) -> (out: Vec<String>)
    ensures
        views(out@) == text_list_of(
            match value {
                Some(v) => Some(v@),
                None => None,
            },
        ),
{
    let mut out: Vec<String> = Vec::new();
    proof {
        assert(views(out@) =~= Seq::<Seq<char>>::empty());
    }
    let value = match value {
        Some(v) => v,
        None => {
            return out;
        },
    };
    match value {
        Json::Array(items) => {
            proof {
                lemma_list_view(items@);
            }
            let mut i: usize = 0;
            while i < items.len()
                invariant
                    i <= items.len(),
                    list_view(items@).len() == items.len(),
                    forall|j: int|
                        0 <= j < items.len() ==> #[trigger] list_view(items@)[j] == items@[j]@,
                    views(out@) == texts_among(list_view(items@).take(i as int)),
                decreases items.len() - i,
            {
                proof {
                    assert(list_view(items@).take(i as int + 1).drop_last() =~= list_view(
                        items@,
                    ).take(i as int));
                    assert(list_view(items@).take(i as int + 1).last() == items@[i as int]@);
                }
                match extract_text_value(&items[i]) {
                    Some(t) => {
                        proof {
                            lemma_views_push(out@, t);
                        }
                        out.push(t);
                    },
                    None => {},
                }
                i += 1;
            }
            proof {
                assert(list_view(items@).take(items.len() as int) =~= list_view(items@));
            }
            out
        },
        _ => {
            match extract_text_value(value) {
                Some(t) => {
                    out.push(t);
                    proof {
                        assert(views(out@) =~= seq![t@]);
                    }
                },
                None => {},
            }
            out
        },
    }
}

/// The member under which a placeholder names its kind.
pub open spec fn placeholder_key() -> Seq<char> {
    "__rollout_placeholder"@
}

/// The placeholder for an item of the kind `kind` that the authoritative side holds.
pub open spec fn placeholder_json(kind: Seq<char>) -> JsonV {
    empty_object().with(placeholder_key(), JsonV::Str(kind))
}

/// Builds the placeholder for an item of the kind `kind`.
pub fn rollout_placeholder(kind: &str) -> (r: Json)
    ensures
        r@ == placeholder_json(kind@),
{
    let mut out = Json::object();
    out.set("__rollout_placeholder", Json::string(kind));
    out
}

/// Reads the kind of a placeholder; nothing for an item that is none.
pub fn rollout_placeholder_kind(item: &Json) -> (r: Option<&String>)
    ensures
        match r {
            Some(k) => item@.text_at(placeholder_key()) == Some(k@),
            None => item@.text_at(placeholder_key()) is None,
        },
{
    item.str_at("__rollout_placeholder")
}

/// The letters and digits of a text, the letters in lower case.
pub open spec fn type_key(value: Seq<char>) -> Seq<char>
    decreases value.len(),
{
    if value.len() == 0 {
        Seq::empty()
    } else if is_ascii_alnum(value.last()) {
        type_key(value.drop_last()).push(ascii_lower(value.last()))
    } else {
        type_key(value.drop_last())
    }
}

/// Brings the name of a type into the form in which names are compared: its ASCII
/// letters and digits only, the letters in lower case.
pub fn normalize_type_key(value: &str) -> (r: String)
    ensures
        r@ == type_key(value@),
{
    let v = chars_of(value);
    let mut out: Vec<char> = Vec::new();
    let mut i: usize = 0;
    while i < v.len()
        invariant
            i <= v.len(),
            out@ == type_key(v@.take(i as int)),
        decreases v.len() - i,
    {
        proof {
            assert(v@.take(i as int + 1).drop_last() =~= v@.take(i as int));
        }
        if ascii_alphanumeric(v[i]) {
            out.push(to_ascii_lower(v[i]));
        }
        i += 1;
    }
    proof {
        assert(v@.take(v.len() as int) =~= v@);
    }
    string_of(&out)
}

/// The type of an item in the form in which types are compared.
pub open spec fn item_type_of(item: JsonV) -> Option<Seq<char>> {
    match item.text_at("type"@) {
        Some(t) => Some(type_key(t)),
        None => None,
    }
}

/// Reads the type of an item in the form in which types are compared.
pub fn item_type_key(item: &Json) -> (r: Option<String>)
    ensures
        opt_view(r) == item_type_of(item@),
{
    match item.str_at("type") {
        Some(t) => Some(normalize_type_key(t.as_str())),
        None => None,
    }
}

/// The key under which an item is found again: its type, a colon and its identifier.
pub open spec fn item_key_of(item: JsonV) -> Option<Seq<char>> {
    match (item_type_of(item), item.text_at("id"@)) {
        (Some(t), Some(id)) => Some(t + seq![':'] + id),
        _ => None,
    }
}

/// Reads the key under which an item is found again.
pub fn item_key(item: &Json) -> (r: Option<String>)
    ensures
        opt_view(r) == item_key_of(item@),
{
    let t = match item_type_key(item) {
        Some(t) => t,
        None => {
            return None;
        },
    };
    let id = match item.str_at("id") {
        Some(id) => id,
        None => {
            return None;
        },
    };
    let mut out = chars_of(t.as_str());
    out.push(':');
    crate::text::append_str(&mut out, id.as_str());
    Some(string_of(&out))
}

/// A value is missing: there is none, or it is `null`, an empty string or an empty
/// array.
pub open spec fn is_missing(value: Option<JsonV>) -> bool {
    match value {
        None => true,
        Some(JsonV::Null) => true,
        Some(JsonV::Str(s)) => s.len() == 0,
        Some(JsonV::Array(items)) => items.len() == 0,
        Some(_) => false,
    }
}

/// Tells whether a value is missing.
pub fn value_is_missing(value: Option<&Json>) -> (r: bool)
    ensures
        r == is_missing(
            match value {
                Some(v) => Some(v@),
                None => None,
            },
        ),
{
    match value {
        None => true,
        Some(v) => match v {
            Json::Null => true,
            Json::Str(s) => {
                let c = chars_of(s.as_str());
                c.len() == 0
            },
            Json::Array(items) => {
                proof {
                    lemma_list_view(items@);
                }
                items.len() == 0
            },
            _ => false,
        },
    }
}

/// The text of a reasoning in the form in which texts are compared: with every run of
/// white space as one blank and none at either end.
pub fn normalize_reasoning_text(text: &str) -> (r: String)
    ensures
        r@ == collapse_spaces(text@),
{
    let v = chars_of(text);
    let out = collapse_whitespace(&v);
    string_of(&out)
}

/// The command and the working directory that the arguments of a call name. The
/// command is the string `cmd` of the arguments, and the arguments themselves where they
/// are no JSON document or have no such string; the working directory is their string
/// `workdir` or, failing that member, `cwd`.
pub open spec fn exec_command_of(arguments: Seq<char>) -> (Seq<char>, Option<Seq<char>>) {
    match parsed_json(arguments) {
        Some(doc) => (
            match doc.text_at("cmd"@) {
                Some(c) => c,
                None => arguments,
            },
            match doc.get("workdir"@) {
                Some(w) => w.as_text(),
                None => doc.text_at("cwd"@),
            },
        ),
        None => (arguments, None),
    }
}

/// Reads the command and the working directory that the arguments of a call name.
pub fn parse_exec_command_from_args(arguments: &str) -> (r: (String, Option<String>))
    ensures
        r.0@ == exec_command_of(arguments@).0,
        opt_view(r.1) == exec_command_of(arguments@).1,
{
    match parse(arguments) {
        Some(doc) => {
            let cmd = match doc.str_at("cmd") {
                Some(c) => copy_string(c),
                None => owned(arguments),
            };
            let cwd = match doc.get("workdir") {
                Some(w) => match w.as_str() {
                    Some(s) => Some(copy_string(s)),
                    None => None,
                },
                None => match doc.str_at("cwd") {
                    Some(s) => Some(copy_string(s)),
                    None => None,
                },
            };
            (cmd, cwd)
        },
        None => (owned(arguments), None),
    }
}

/// The text of the output of a call: a string is its own text; an object has the text
/// of its string `content`, else of its string `output`, else what its strings `stdout`
/// and `stderr` hold together; anything else has no text.
pub open spec fn output_text_of(value: JsonV) -> Seq<char> {
    match value {
        JsonV::Str(s) => s,
        JsonV::Object(_) => match value.text_at("content"@) {
            Some(t) => t,
            None => match value.text_at("output"@) {
                Some(t) => t,
                None => text_or_empty(value, "stdout"@) + text_or_empty(value, "stderr"@),
            },
        },
        _ => Seq::empty(),
    }
}

/// The text of the string member `key`; the empty text where there is none.
pub open spec fn text_or_empty(value: JsonV, key: Seq<char>) -> Seq<char> {
    match value.text_at(key) {
        Some(t) => t,
        None => Seq::empty(),
    }
}

/// Reads the text of the output of a call.
pub fn extract_output_text(value: &Json) -> (r: String)
    ensures
        r@ == output_text_of(value@),
{
    match value {
        Json::Str(s) => copy_string(s),
        Json::Object(_) => {
            if let Some(t) = value.str_at("content") {
                return copy_string(t);
            }
            if let Some(t) = value.str_at("output") {
                return copy_string(t);
            }
            let mut out: Vec<char> = Vec::new();
            match value.str_at("stdout") {
                Some(t) => {
                    crate::text::append_str(&mut out, t.as_str());
                },
                None => {},
            }
            let ghost first = out@;
            match value.str_at("stderr") {
                Some(t) => {
                    crate::text::append_str(&mut out, t.as_str());
                },
                None => {},
            }
            proof {
                assert(out@ =~= text_or_empty(value@, "stdout"@) + text_or_empty(
                    value@,
                    "stderr"@,
                ));
            }
            string_of(&out)
        },
        _ => String::new(),
    }
}

} // verus!
