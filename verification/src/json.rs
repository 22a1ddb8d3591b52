//! A JSON document model.
//!
//! Documents are parsed and printed by `serde_json`; everything that reads or edits a
//! document works on [`Json`], whose mathematical view is [`JsonV`].

use serde_json::Value;
use vstd::prelude::*;
use crate::text::{chars_of, copy_string, string_of, text_eq};

verus! {

/// A JSON value.
///
/// A number is held as `Int` where it fits `i64`, as `UInt` where it is above
/// `i64::MAX` and fits `u64`, and otherwise as `Real`, by its JSON text. The members of
/// an object are held in document order.
#[derive(Debug, PartialEq, Eq)]
pub enum Json {
    Null,
    Bool(bool),
    Int(i64),
    UInt(u64),
    Real(String),
    Str(String),
    Array(Vec<Json>),
    Object(Vec<(String, Json)>),
}

/// The mathematical view of a [`Json`] value.
pub enum JsonV {
    Null,
    Bool(bool),
    Int(i64),
    UInt(u64),
    Real(Seq<char>),
    Str(Seq<char>),
    Array(Seq<JsonV>),
    Object(Seq<(Seq<char>, JsonV)>),
}

/// The views of a list of values.
pub open spec fn list_view(items: Seq<Json>) -> Seq<JsonV>
    decreases items,
{
    if items.len() == 0 {
        Seq::empty()
    } else {
        list_view(items.drop_last()).push(items.last().view())
    }
}

/// The views of the members of an object.
pub open spec fn members_view(fields: Seq<(String, Json)>) -> Seq<(Seq<char>, JsonV)>
    decreases fields,
{
    if fields.len() == 0 {
        Seq::empty()
    } else {
        members_view(fields.drop_last()).push((fields.last().0@, fields.last().1.view()))
    }
}

impl View for Json {
    type V = JsonV;

    open spec fn view(&self) -> JsonV
        decreases self,
    {
        match self {
            Json::Null => JsonV::Null,
            Json::Bool(b) => JsonV::Bool(*b),
            Json::Int(n) => JsonV::Int(*n),
            Json::UInt(n) => JsonV::UInt(*n),
            Json::Real(t) => JsonV::Real(t@),
            Json::Str(s) => JsonV::Str(s@),
            Json::Array(items) => JsonV::Array(list_view(items@)),
            Json::Object(fields) => JsonV::Object(members_view(fields@)),
        }
    }
}

/// `list_view` keeps the length and views each item in place.
pub proof fn lemma_list_view(items: Seq<Json>)
    ensures
        list_view(items).len() == items.len(),
        forall|i: int| 0 <= i < items.len() ==> #[trigger] list_view(items)[i] == items[i]@,
    decreases items.len(),
{
    if items.len() > 0 {
        lemma_list_view(items.drop_last());
        assert(list_view(items) == list_view(items.drop_last()).push(items.last()@));
    } else {
        assert(list_view(items) == Seq::<JsonV>::empty());
    }
}

/// `members_view` keeps the length and views each member in place.
pub proof fn lemma_members_view(fields: Seq<(String, Json)>)
    ensures
        members_view(fields).len() == fields.len(),
        forall|i: int|
            0 <= i < fields.len() ==> #[trigger] members_view(fields)[i] == (
                fields[i].0@,
                fields[i].1@,
            ),
    decreases fields.len(),
{
    if fields.len() > 0 {
        lemma_members_view(fields.drop_last());
        assert(members_view(fields) == members_view(fields.drop_last()).push(
            (fields.last().0@, fields.last().1@),
        ));
    } else {
        assert(members_view(fields) == Seq::<(Seq<char>, JsonV)>::empty());
    }
}

/// A list of views that agrees item by item with a list of values is its view.
pub proof fn lemma_list_view_is(items: Seq<Json>, views: Seq<JsonV>)
    requires
        items.len() == views.len(),
        forall|i: int| 0 <= i < items.len() ==> (#[trigger] items[i])@ == views[i],
    ensures
        list_view(items) == views,
{
    lemma_list_view(items);
    assert(list_view(items) =~= views);
}

/// Pushing a value pushes its view.
pub proof fn lemma_list_view_push(items: Seq<Json>, x: Json)
    ensures
        list_view(items.push(x)) == list_view(items).push(x@),
{
    assert(items.push(x).drop_last() =~= items);
}

/// The array of the string values with the given texts.
pub open spec fn text_array(items: Seq<Seq<char>>) -> JsonV {
    JsonV::Array(Seq::new(items.len(), |i: int| JsonV::Str(items[i])))
}

/// Builds the array of the given strings.
pub fn strings_to_json(items: &Vec<String>) -> (r: Json)
    ensures
        r@ == text_array(crate::text::views(items@)),
{
    let mut out: Vec<Json> = Vec::new();
    let mut i: usize = 0;
    while i < items.len()
        invariant
            i <= items.len(),
            list_view(out@).len() == i,
            forall|j: int| 0 <= j < i ==> #[trigger] list_view(out@)[j] == JsonV::Str(items@[j]@),
        decreases items.len() - i,
    {
        let x = Json::Str(copy_string(&items[i]));
        proof {
            lemma_list_view_push(out@, x);
        }
        out.push(x);
        i += 1;
    }
    proof {
        assert(list_view(out@) =~= Seq::new(
            items@.len(),
            |i: int| JsonV::Str(crate::text::views(items@)[i]),
        ));
    }
    Json::Array(out)
}

/// The first index at or after `from` whose member is named `key`; the number of
/// members if there is none.
pub open spec fn key_index(fields: Seq<(Seq<char>, JsonV)>, key: Seq<char>, from: int) -> int
    decreases fields.len() - from,
{
    if from < 0 || from >= fields.len() {
        fields.len() as int
    } else if fields[from].0 == key {
        from
    } else {
        key_index(fields, key, from + 1)
    }
}

/// `key_index` stays within `from ..= len`, names `key` where it is an index, and skips
/// no member of that name.
pub proof fn lemma_key_index(fields: Seq<(Seq<char>, JsonV)>, key: Seq<char>, from: int)
    requires
        0 <= from <= fields.len(),
    ensures
        from <= key_index(fields, key, from) <= fields.len(),
        key_index(fields, key, from) < fields.len() ==> fields[key_index(fields, key, from)].0
            == key,
        forall|j: int| from <= j < key_index(fields, key, from) ==> fields[j].0 != key,
    decreases fields.len() - from,
{
    if from < fields.len() && fields[from].0 != key {
        lemma_key_index(fields, key, from + 1);
    }
}

/// `key_index` is the only index of which the three facts of `lemma_key_index` hold.
pub proof fn lemma_key_index_is(
    fields: Seq<(Seq<char>, JsonV)>,
    key: Seq<char>,
    from: int,
    r: int,
)
    requires
        0 <= from <= r <= fields.len(),
        forall|j: int| from <= j < r ==> (#[trigger] fields[j]).0 != key,
        r < fields.len() ==> fields[r].0 == key,
    ensures
        key_index(fields, key, from) == r,
    decreases r - from,
{
    if from < r {
        assert(fields[from].0 != key);
        lemma_key_index_is(fields, key, from + 1, r);
    }
}

/// After a member was set, looking it up gives its new value.
pub proof fn lemma_with_then_get(doc: JsonV, key: Seq<char>, value: JsonV)
    requires
        doc is Object,
    ensures
        doc.with(key, value).get(key) == Some(value),
        doc.with(key, value) is Object,
{
    let fields = doc->Object_0;
    let i = key_index(fields, key, 0);
    lemma_key_index(fields, key, 0);
    if i < fields.len() {
        let next = fields.update(i, (key, value));
        assert forall|j: int| 0 <= j < i implies (#[trigger] next[j]).0 != key by {
            assert(next[j] == fields[j]);
        }
        lemma_key_index_is(next, key, 0, i);
    } else {
        let next = fields.push((key, value));
        assert forall|j: int| 0 <= j < fields.len() implies (#[trigger] next[j]).0 != key by {
            assert(next[j] == fields[j]);
        }
        lemma_key_index_is(next, key, 0, fields.len() as int);
    }
}

/// After a member was set, looking up any other member gives what it gave before.
pub proof fn lemma_with_keeps_others(doc: JsonV, key: Seq<char>, value: JsonV, other: Seq<char>)
    requires
        other != key,
    ensures
        doc.with(key, value).get(other) == doc.get(other),
{
    if doc is Object {
        let fields = doc->Object_0;
        let i = key_index(fields, key, 0);
        let o = key_index(fields, other, 0);
        lemma_key_index(fields, key, 0);
        lemma_key_index(fields, other, 0);
        if i < fields.len() {
            let next = fields.update(i, (key, value));
            assert forall|j: int| 0 <= j < o implies (#[trigger] next[j]).0 != other by {
                if j != i {
                    assert(next[j] == fields[j]);
                }
            }
            if o < fields.len() {
                assert(next[o] == fields[o]);
            }
            lemma_key_index_is(next, other, 0, o);
        } else {
            let next = fields.push((key, value));
            if o < fields.len() {
                assert forall|j: int| 0 <= j < o implies (#[trigger] next[j]).0 != other by {
                    assert(next[j] == fields[j]);
                }
                assert(next[o] == fields[o]);
                lemma_key_index_is(next, other, 0, o);
            } else {
                assert forall|j: int| 0 <= j < next.len() implies (#[trigger] next[j]).0
                    != other by {
                    if j < fields.len() {
                        assert(next[j] == fields[j]);
                    }
                }
                lemma_key_index_is(next, other, 0, next.len() as int);
            }
        }
    }
}

impl JsonV {
    /// The member named `key` of an object: the first one, if several have that name.
    pub open spec fn get(self, key: Seq<char>) -> Option<JsonV> {
        match self {
            JsonV::Object(fields) => {
                let i = key_index(fields, key, 0);
                if i < fields.len() {
                    Some(fields[i].1)
                } else {
                    None
                }
            },
            _ => None,
        }
    }

    /// The text of a string value.
    pub open spec fn as_text(self) -> Option<Seq<char>> {
        match self {
            JsonV::Str(s) => Some(s),
            _ => None,
        }
    }

    /// The items of an array.
    pub open spec fn as_items(self) -> Option<Seq<JsonV>> {
        match self {
            JsonV::Array(items) => Some(items),
            _ => None,
        }
    }

    /// The string member named `key`.
    pub open spec fn text_at(self, key: Seq<char>) -> Option<Seq<char>> {
        match self.get(key) {
            Some(v) => v.as_text(),
            None => None,
        }
    }

    /// The object with the member `key` set to `value`: replaced in place where the
    /// object has that member, added at the end where it has not. A value that is no
    /// object stays as it is.
    pub open spec fn with(self, key: Seq<char>, value: JsonV) -> JsonV {
        match self {
            JsonV::Object(fields) => {
                let i = key_index(fields, key, 0);
                if i < fields.len() {
                    JsonV::Object(fields.update(i, (key, value)))
                } else {
                    JsonV::Object(fields.push((key, value)))
                }
            },
            other => other,
        }
    }

    /// The object with the member `key` added at the end, unless it has that member.
    pub open spec fn with_default(self, key: Seq<char>, value: JsonV) -> JsonV {
        match self {
            JsonV::Object(fields) => {
                if key_index(fields, key, 0) < fields.len() {
                    self
                } else {
                    JsonV::Object(fields.push((key, value)))
                }
            },
            other => other,
        }
    }
}

/// The empty object.
pub open spec fn empty_object() -> JsonV {
    JsonV::Object(Seq::empty())
}

/// What `serde_json::from_str` makes of a text: the document, or nothing where the text
/// is no JSON document.
pub uninterp spec fn parsed_json(text: Seq<char>) -> Option<JsonV>;

/// The compact text that `serde_json::to_string` prints for a document.
pub uninterp spec fn compact_json(doc: JsonV) -> Seq<char>;

/// The indented text that `serde_json::to_string_pretty` prints for a document.
pub uninterp spec fn pretty_json(doc: JsonV) -> Seq<char>;

/// Converts a `serde_json` value, variant by variant.
///
/// Trusted: each variant maps to the variant of the same meaning, a number by
/// `Number::as_i64`, then `Number::as_u64`, then its printed text; the members of an object
/// come in the order in which the `serde_json` map yields them. Nothing is stated of the
/// result here; `read_json` and `read_yaml` name it.
#[verifier::external_body]
fn from_outside(value: &Value) -> Json {
    match value {
        Value::Null => Json::Null,
        Value::Bool(b) => Json::Bool(*b),
        Value::Number(n) => match (n.as_i64(), n.as_u64()) {
            (Some(i), _) => Json::Int(i),
            (_, Some(u)) => Json::UInt(u),
            _ => Json::Real(n.to_string()),
        },
        Value::String(s) => Json::Str(s.clone()),
        Value::Array(a) => Json::Array(a.iter().map(from_outside).collect()),
        Value::Object(m) => Json::Object(m.iter().map(|(k, v)| (k.clone(), from_outside(v))).collect()),
    }
}

/// Converts to a `serde_json` value, variant by variant.
///
/// Trusted: the inverse of `from_outside`; the text of a `Real` is read back as a number
/// by `serde_json`, and is `null` where it is no number. Members are inserted in order, so of two members with
/// one name the later one stays. Nothing is stated of the result here; `write_json`,
/// `write_json_pretty` and `write_yaml` name what is printed.
#[verifier::external_body]
fn to_outside(doc: &Json) -> Value {
    match doc {
        Json::Null => Value::Null,
        Json::Bool(b) => Value::Bool(*b),
        Json::Int(n) => Value::Number((*n).into()),
        Json::UInt(n) => Value::Number((*n).into()),
        Json::Real(t) => serde_json::from_str(t).map_or(Value::Null, Value::Number),
        Json::Str(s) => Value::String(s.clone()),
        Json::Array(a) => Value::Array(a.iter().map(to_outside).collect()),
        Json::Object(m) => Value::Object(m.iter().map(|(k, v)| (k.clone(), to_outside(v))).collect()),
    }
}

#[verifier::external_type_specification]
#[verifier::external_body]
pub struct ExValue(Value);

/// Reads a JSON document by `serde_json`.
///
/// Trusted: `serde_json::from_str` is a function of the text alone; the result is the
/// document it returns, and where it returns an error, the message of that error, of
/// which nothing is stated.
#[verifier::external_body]
fn read_json(text: &str) -> (r: Result<Json, String>)
    ensures
        match r {
            Ok(doc) => parsed_json(text@) == Some(doc@),
            Err(_) => parsed_json(text@) is None,
        },
{
    match serde_json::from_str::<Value>(text) {
        Ok(value) => Ok(from_outside(&value)),
        Err(e) => Err(e.to_string()),
    }
}

/// Parses a JSON document and says why where it is none.
pub fn parse_or_error(text: &str) -> (r: Result<Json, String>)
    ensures
        match r {
            Ok(doc) => parsed_json(text@) == Some(doc@),
            Err(_) => parsed_json(text@) is None,
        },
{
    read_json(text)
}

/// Parses a JSON document.
pub fn parse(text: &str) -> (r: Option<Json>)
    ensures
        match r {
            Some(doc) => parsed_json(text@) == Some(doc@),
            None => parsed_json(text@) is None,
        },
{
    match read_json(text) {
        Ok(doc) => Some(doc),
        Err(_) => None,
    }
}

/// What `serde_yaml::from_str` makes of a text: the document, or nothing where the text
/// is no YAML document that a JSON document can hold.
pub uninterp spec fn parsed_yaml(text: Seq<char>) -> Option<JsonV>;

/// The YAML text that `serde_yaml::to_string` prints for a document.
pub uninterp spec fn yaml_text(doc: JsonV) -> Seq<char>;

/// Reads a YAML document by `serde_yaml`.
///
/// Trusted: `serde_yaml::from_str` is a function of the text alone; the result is the
/// document it returns, nothing where it returns an error.
#[verifier::external_body]
fn read_yaml(text: &str) -> (r: Option<Json>)
    ensures
        match r {
            Some(doc) => parsed_yaml(text@) == Some(doc@),
            None => parsed_yaml(text@) is None,
        },
{
    match serde_yaml::from_str::<Value>(text) {
        Ok(value) => Some(from_outside(&value)),
        Err(_) => None,
    }
}

/// Writes a document as YAML by `serde_yaml`.
///
/// Trusted: `serde_yaml::to_string` is a function of the document alone.
#[verifier::external_body]
fn write_yaml(doc: &Json) -> (r: String)
    ensures
        r@ == yaml_text(doc@),
{
    serde_yaml::to_string(&to_outside(doc)).unwrap_or_default()
}

/// Parses a YAML document.
pub fn parse_yaml(text: &str) -> (r: Option<Json>)
    ensures
        match r {
            Some(doc) => parsed_yaml(text@) == Some(doc@),
            None => parsed_yaml(text@) is None,
        },
{
    read_yaml(text)
}

/// Prints a document as YAML.
pub fn to_yaml_text(doc: &Json) -> (r: String)
    ensures
        r@ == yaml_text(doc@),
{
    write_yaml(doc)
}

/// Writes a document without white space by `serde_json`.
///
/// Trusted: `serde_json::to_string` is a function of the document alone.
#[verifier::external_body]
fn write_json(doc: &Json) -> (r: String)
    ensures
        r@ == compact_json(doc@),
{
    serde_json::to_string(&to_outside(doc)).unwrap_or_default()
}

/// Writes a document with indentation by `serde_json`.
///
/// Trusted: `serde_json::to_string_pretty` is a function of the document alone.
#[verifier::external_body]
fn write_json_pretty(doc: &Json) -> (r: String)
    ensures
        r@ == pretty_json(doc@),
{
    serde_json::to_string_pretty(&to_outside(doc)).unwrap_or_default()
}

/// Prints a document without white space.
pub fn to_text(doc: &Json) -> (r: String)
    ensures
        r@ == compact_json(doc@),
{
    write_json(doc)
}

/// Prints a document with indentation.
pub fn to_pretty_text(doc: &Json) -> (r: String)
    ensures
        r@ == pretty_json(doc@),
{
    write_json_pretty(doc)
}

impl Clone for Json {
    fn clone(&self) -> (r: Self)
        ensures
            r@ == self@,
    {
        self.copy()
    }
}

/// Finds the first member named `key`.
pub fn position(fields: &Vec<(String, Json)>, key: &Vec<char>) -> (r: Option<usize>)
    ensures
        match r {
            Some(at) => at < fields.len() && key_index(members_view(fields@), key@, 0) == at,
            None => key_index(members_view(fields@), key@, 0) == fields.len(),
        },
{
    proof {
        lemma_members_view(fields@);
    }
    let mut i: usize = 0;
    while i < fields.len()
        invariant
            i <= fields.len(),
            members_view(fields@).len() == fields.len(),
            forall|j: int|
                0 <= j < fields.len() ==> #[trigger] members_view(fields@)[j] == (
                    fields@[j].0@,
                    fields@[j].1@,
                ),
            key_index(members_view(fields@), key@, 0) == key_index(
                members_view(fields@),
                key@,
                i as int,
            ),
        decreases fields.len() - i,
    {
        let name = chars_of(fields[i].0.as_str());
        proof {
            assert(members_view(fields@)[i as int].0 == fields@[i as int].0@);
        }
        if text_eq(&name, key) {
            return Some(i);
        }
        i += 1;
    }
    None
}

impl Json {
    /// A deep copy.
    #[verifier::loop_isolation(false)]
    pub fn copy(&self) -> (r: Json)
        ensures
            r@ == self@,
        decreases self,
    {
        match self {
            Json::Null => Json::Null,
            Json::Bool(b) => Json::Bool(*b),
            Json::Int(n) => Json::Int(*n),
            Json::UInt(n) => Json::UInt(*n),
            Json::Real(t) => Json::Real(copy_string(t)),
            Json::Str(s) => Json::Str(copy_string(s)),
            Json::Array(items) => {
                let mut out: Vec<Json> = Vec::new();
                let mut i: usize = 0;
                while i < items.len()
                    invariant
                        i <= items.len(),
                        list_view(out@) == list_view(items@.take(i as int)),
                    decreases items.len() - i,
                {
                    proof {
                        assert(decreases_to!(*self => *items));
                        assert(decreases_to!(*items => items@));
                        assert(decreases_to!(items@ => items@[i as int]));
                    }
                    let c = items[i].copy();
                    proof {
                        assert(items@.take(i as int + 1).drop_last() =~= items@.take(i as int));
                        assert(out@.push(c).drop_last() =~= out@);
                    }
                    out.push(c);
                    i += 1;
                }
                proof {
                    assert(items@.take(items.len() as int) =~= items@);
                }
                Json::Array(out)
            },
            Json::Object(fields) => {
                let mut out: Vec<(String, Json)> = Vec::new();
                let mut i: usize = 0;
                while i < fields.len()
                    invariant
                        i <= fields.len(),
                        members_view(out@) == members_view(fields@.take(i as int)),
                    decreases fields.len() - i,
                {
                    let k = copy_string(&fields[i].0);
                    proof {
                        assert(decreases_to!(*self => *fields));
                        assert(decreases_to!(*fields => fields@));
                        assert(decreases_to!(fields@ => fields@[i as int]));
                        assert(decreases_to!(fields@[i as int] => fields@[i as int].1));
                    }
                    let c = fields[i].1.copy();
                    proof {
                        assert(fields@.take(i as int + 1).drop_last() =~= fields@.take(i as int));
                        assert(out@.push((k, c)).drop_last() =~= out@);
                    }
                    out.push((k, c));
                    i += 1;
                }
                proof {
                    assert(fields@.take(fields.len() as int) =~= fields@);
                }
                Json::Object(out)
            },
        }
    }

    /// The member named `key`, where this is an object that has one.
    pub fn get(&self, key: &str) -> (r: Option<&Json>)
        ensures
            match r {
                Some(v) => self@.get(key@) == Some(v@),
                None => self@.get(key@) is None,
            },
    {
        match self {
            Json::Object(fields) => {
                let k = chars_of(key);
                proof {
                    lemma_members_view(fields@);
                }
                match position(fields, &k) {
                    Some(at) => Some(&fields[at].1),
                    None => None,
                }
            },
            _ => None,
        }
    }

    /// The text of a string value.
    pub fn as_str(&self) -> (r: Option<&String>)
        ensures
            match r {
                Some(s) => self@.as_text() == Some(s@),
                None => self@.as_text() is None,
            },
    {
        match self {
            Json::Str(s) => Some(s),
            _ => None,
        }
    }

    /// The items of an array.
    pub fn as_array(&self) -> (r: Option<&Vec<Json>>)
        ensures
            match r {
                Some(items) => self@.as_items() == Some(list_view(items@)),
                None => self@.as_items() is None,
            },
    {
        match self {
            Json::Array(items) => Some(items),
            _ => None,
        }
    }

    /// The string member named `key`.
    pub fn str_at(&self, key: &str) -> (r: Option<&String>)
        ensures
            match r {
                Some(s) => self@.text_at(key@) == Some(s@),
                None => self@.text_at(key@) is None,
            },
    {
        match self.get(key) {
            Some(v) => v.as_str(),
            None => None,
        }
    }

    /// A string value with the characters of `s`.
    pub fn string(s: &str) -> (r: Json)
        ensures
            r@ == JsonV::Str(s@),
    {
        let v = chars_of(s);
        Json::Str(string_of(&v))
    }

    /// An object without members.
    pub fn object() -> (r: Json)
        ensures
            r@ == empty_object(),
    {
        Json::Object(Vec::new())
    }

    /// Sets the member `key` of an object: replaces it in place where the object has
    /// that member, adds it at the end where it has not. A value that is no object is
    /// left as it is.
    pub fn set(&mut self, key: &str, value: Json)
        ensures
            final(self)@ == old(self)@.with(key@, value@),
    {
        match self {
            Json::Object(fields) => {
                let k = chars_of(key);
                let ghost before = fields@;
                proof {
                    lemma_members_view(before);
                }
                let found = position(fields, &k);
                let name = string_of(&k);
                match found {
                    Some(at) => {
                        fields.set(at, (name, value));
                        proof {
                            lemma_members_view(fields@);
                            assert(members_view(fields@) =~= members_view(before).update(
                                at as int,
                                (key@, value@),
                            ));
                        }
                    },
                    None => {
                        fields.push((name, value));
                        proof {
                            assert(fields@.drop_last() =~= before);
                        }
                    },
                }
            },
            _ => {},
        }
    }

    /// Adds the member `key` at the end of an object that has no member of that name.
    /// Any other value is left as it is.
    pub fn set_default(&mut self, key: &str, value: Json)
        ensures
            final(self)@ == old(self)@.with_default(key@, value@),
    {
        match self {
            Json::Object(fields) => {
                let k = chars_of(key);
                let ghost before = fields@;
                proof {
                    lemma_members_view(before);
                }
                let found = position(fields, &k);
                if found.is_none() {
                    fields.push((string_of(&k), value));
                    proof {
                        assert(fields@.drop_last() =~= before);
                    }
                }
            },
            _ => {},
        }
    }

    /// Tells whether this is an object.
    pub fn is_object(&self) -> (r: bool)
        ensures
            r == (self@ is Object),
    {
        match self {
            Json::Object(_) => true,
            _ => false,
        }
    }
}

} // verus!
