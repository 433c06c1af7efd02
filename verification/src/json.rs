//! JSON documents as `serde_json` holds them, and what the rest of the
//! library assumes of them.

use serde_json::Value;
use vstd::prelude::*;

verus! {

/// `serde_json::Value`, a JSON document. Nothing of its inside is known
/// here but what the functions below say.
#[verifier::external_type_specification]
#[verifier::external_body]
pub struct ExValue(serde_json::Value);

/// `serde_json::Map`, the map of a JSON object. It is only handed on.
#[verifier::external_type_specification]
#[verifier::external_body]
#[verifier::reject_recursive_types(K)]
#[verifier::reject_recursive_types(V)]
pub struct ExObject<K, V>(serde_json::Map<K, V>);

/// A JSON number.
pub struct JsonNumber {
    /// Whether the number is held as a floating-point value.
    pub float: bool,
    /// The number in decimal.
    pub text: Seq<char>,
}

/// The six kinds of JSON document.
#[derive(Clone, Copy, PartialEq, Eq, Structural, Debug)]
pub enum JsonKind {
    Null,
    Bool,
    Number,
    String,
    Array,
    Object,
}

/// The mathematical content of a JSON document.
pub enum Json {
    Null,
    Bool(bool),
    Number(JsonNumber),
    String(Seq<char>),
    Array(Seq<Json>),
    Object(Map<Seq<char>, Json>),
}

impl Json {
    /// Which of the six kinds the document is.
    pub open spec fn kind(self) -> JsonKind {
        match self {
            Json::Null => JsonKind::Null,
            Json::Bool(_) => JsonKind::Bool,
            Json::Number(_) => JsonKind::Number,
            Json::String(_) => JsonKind::String,
            Json::Array(_) => JsonKind::Array,
            Json::Object(_) => JsonKind::Object,
        }
    }

    /// The member stored under `key`, when `self` is an object that has one.
    pub open spec fn member(self, key: Seq<char>) -> Option<Json> {
        match self {
            Json::Object(members) => if members.contains_key(key) {
                Some(members[key])
            } else {
                None
            },
            _ => None,
        }
    }

    /// The text of a string document.
    pub open spec fn text(self) -> Option<Seq<char>> {
        match self {
            Json::String(text) => Some(text),
            _ => None,
        }
    }

    /// The text of the string member stored under `key`.
    pub open spec fn tag(self, key: Seq<char>) -> Option<Seq<char>> {
        match self.member(key) {
            Some(member) => member.text(),
            None => None,
        }
    }

    /// Whether the document is a number held as a floating-point value.
    pub open spec fn is_float(self) -> bool {
        match self {
            Json::Number(number) => number.float,
            _ => false,
        }
    }
}

/// Whether `entries` lists every member of `members` exactly once.
pub open spec fn lists_members(
    entries: Seq<(Seq<char>, Json)>,
    members: Map<Seq<char>, Json>,
) -> bool {
    &&& forall|i: int|
        0 <= i < entries.len() ==> members.contains_key(#[trigger] entries[i].0) && members[entries[i].0]
            == entries[i].1
    &&& forall|key: Seq<char>| #[trigger]
        members.contains_key(key) ==> exists|i: int| 0 <= i < entries.len() && #[trigger] entries[i].0 == key
    &&& forall|i: int, j: int|
        0 <= i < j < entries.len() ==> #[trigger] entries[i].0 != #[trigger] entries[j].0
}

/// The documents of borrowed key and value pairs, in order.
pub open spec fn entry_views(entries: Seq<(&String, &Value)>) -> Seq<(Seq<char>, Json)> {
    Seq::new(entries.len(), |i: int| (entries[i].0@, json_of(*entries[i].1)))
}

/// The documents of a run of values, in order.
pub open spec fn documents_of(values: Seq<Value>) -> Seq<Json> {
    Seq::new(values.len(), |i: int| json_of(values[i]))
}

/// The document that a `serde_json::Value` holds.
pub uninterp spec fn json_of(v: Value) -> Json;

/// `Value::get` with a string key: the member of an object under that key,
/// `None` for a missing key and for every value that is not an object.
#[verifier::external_body]
pub(crate) fn member<'a>(v: &'a Value, key: &str) -> (found: Option<&'a Value>)
    ensures
        match found {
            Some(m) => json_of(*v).member(key@) == Some(json_of(*m)),
            None => json_of(*v).member(key@).is_none(),
        },
{
    v.get(key)
}

/// `Value::as_str`: the text of a string value, `None` for any other value.
#[verifier::external_body]
pub(crate) fn as_text<'a>(v: &'a Value) -> (found: Option<&'a str>)
    ensures
        match found {
            Some(text) => json_of(*v) == Json::String(text@),
            None => !(json_of(*v) is String),
        },
{
    v.as_str()
}

/// `Value::as_array`: the elements of an array value in order, `None` for
/// any other value.
#[verifier::external_body]
pub(crate) fn as_elements<'a>(v: &'a Value) -> (found: Option<&'a Vec<Value>>)
    ensures
        match found {
            Some(elements) => json_of(*v) == Json::Array(documents_of(elements@)),
            None => !(json_of(*v) is Array),
        },
{
    v.as_array()
}

/// `Map::iter` on the map of an object value: every member once, with its
/// key, in the order in which the map walks them; `None` for a value of any
/// other variant.
#[verifier::external_body]
pub(crate) fn entries<'a>(v: &'a Value) -> (found: Option<Vec<(&'a String, &'a Value)>>)
    ensures
        match found {
            Some(listed) => json_of(*v) is Object && lists_members(
                entry_views(listed@),
                json_of(*v)->Object_0,
            ),
            None => !(json_of(*v) is Object),
        },
{
    match v {
        Value::Object(members) => Some(members.iter().collect()),
        _ => None,
    }
}

/// The variant of a `Value`.
#[verifier::external_body]
pub(crate) fn kind_of(v: &Value) -> (kind: JsonKind)
    ensures
        kind == json_of(*v).kind(),
{
    match v {
        Value::Null => JsonKind::Null,
        Value::Bool(_) => JsonKind::Bool,
        Value::Number(_) => JsonKind::Number,
        Value::String(_) => JsonKind::String,
        Value::Array(_) => JsonKind::Array,
        Value::Object(_) => JsonKind::Object,
    }
}

/// `Value::is_f64`: whether the value is a number held as floating point.
#[verifier::external_body]
pub(crate) fn is_float(v: &Value) -> (float: bool)
    ensures
        float == json_of(*v).is_float(),
{
    v.is_f64()
}

/// `Value::clone`: a value that holds the same document.
#[verifier::external_body]
pub(crate) fn snapshot(v: &Value) -> (copy: Value)
    ensures
        json_of(copy) == json_of(*v),
{
    v.clone()
}

} // verus!
