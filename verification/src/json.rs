//! The JSON values the search API answers with, held as plain values, and
//! the few questions the search logic asks of them.

use vstd::prelude::*;
use serde_json::Value;

verus! {

#[verifier::external_type_specification]
#[verifier::external_body]
pub struct ExSerdeJsonNumber(serde_json::Number);

/// A JSON number as the API sent it: a non-negative integer, a negative
/// integer, or any other number, carried through untouched.
pub enum JsonNumber {
    PosInt(u64),
    NegInt(i64),
    Float(serde_json::Number),
}

/// A JSON value. An object keeps its members in the order they came, each
/// key once.
pub enum Json {
    Null,
    Bool(bool),
    Number(JsonNumber),
    Str(String),
    Array(Vec<Json>),
    Object(Vec<(String, Json)>),
}

/// The view of an object's members: each key's text with its value.
pub open spec fn members_view(e: Seq<(String, Json)>) -> Seq<(Seq<char>, Json)> {
    e.map_values(|m: (String, Json)| (m.0@, m.1))
}

/// The value stored under `key` among an object's members (the first, if
/// a key were repeated).
pub open spec fn member(entries: Seq<(String, Json)>, key: Seq<char>) -> Option<Json>
    decreases entries.len(),
{
    if entries.len() == 0 {
        None
    } else if entries[0].0@ == key {
        Some(entries[0].1)
    } else {
        member(entries.drop_first(), key)
    }
}

/// The value under `key` when `v` is an object, as `Value::get` gives it.
pub open spec fn get_spec(v: Json, key: Seq<char>) -> Option<Json> {
    match v {
        Json::Object(entries) => member(entries@, key),
        _ => None,
    }
}

/// The value stored under `key` among an object's members.
pub fn member_of<'a>(entries: &'a Vec<(String, Json)>, key: &str) -> (r: Option<&'a Json>)
    ensures
        match member(entries@, key@) {
            Some(v) => r matches Some(x) && *x == v,
            None => r is None,
        },
{
    let wanted = key.to_owned();
    let mut i: usize = 0;
    assert(entries@.skip(0) =~= entries@);
    while i < entries.len()
        invariant
            i <= entries@.len(),
            wanted@ == key@,
            member(entries@, key@) == member(entries@.skip(i as int), key@),
        decreases entries@.len() - i,
    {
        assert(entries@.skip(i as int)[0] == entries@[i as int]);
        if entries[i].0 == wanted {
            return Some(&entries[i].1);
        }
        assert(entries@.skip(i as int).drop_first() =~= entries@.skip(i + 1));
        i += 1;
    }
    None
}

impl Json {
    /// The value under `key` when this is an object.
    pub fn get(&self, key: &str) -> (r: Option<&Json>)
        ensures
            match get_spec(*self, key@) {
                Some(v) => r matches Some(x) && *x == v,
                None => r is None,
            },
    {
        match self {
            Json::Object(entries) => member_of(entries, key),
            _ => None,
        }
    }

    /// The text of a string value.
    pub fn as_str(&self) -> (r: Option<&String>)
        ensures
            match *self {
                Json::Str(s) => r matches Some(x) && *x == s,
                _ => r is None,
            },
    {
        match self {
            Json::Str(s) => Some(s),
            _ => None,
        }
    }

    /// The value of a non-negative integer, as `Value::as_u64` gives it.
    pub fn as_u64(&self) -> (r: Option<u64>)
        ensures
            r == as_u64_spec(*self),
    {
        match self {
            Json::Number(JsonNumber::PosInt(n)) => Some(*n),
            _ => None,
        }
    }
}

/// The value of a non-negative integer.
pub open spec fn as_u64_spec(v: Json) -> Option<u64> {
    match v {
        Json::Number(JsonNumber::PosInt(n)) => Some(n),
        _ => None,
    }
}

/// The text of the string under `key` of an object, as
/// `v.get(key).and_then(|x| x.as_str())` gives it.
pub open spec fn str_member(v: Json, key: Seq<char>) -> Option<Seq<char>> {
    match get_spec(v, key) {
        Some(Json::Str(s)) => Some(s@),
        _ => None,
    }
}

/// The text of the string under `key`, if there is one.
pub fn str_member_of(v: &Json, key: &str) -> (r: Option<String>)
    ensures
        match (r, str_member(*v, key@)) {
            (Some(a), Some(b)) => a@ == b,
            (None, None) => true,
            _ => false,
        },
{
    match v.get(key) {
        Some(x) => match x.as_str() {
            Some(s) => Some(s.clone()),
            None => None,
        },
        None => None,
    }
}

/// The members of the object a result holds: those of its `map` member
/// when that is an object, else its own when it is an object.
pub open spec fn unwrap_map_spec(v: Json) -> Option<Seq<(String, Json)>> {
    match get_spec(v, "map"@) {
        Some(Json::Object(inner)) => Some(inner@),
        _ => match v {
            Json::Object(entries) => Some(entries@),
            _ => None,
        },
    }
}

/// The members of the object a search result holds.
pub fn unwrap_map(v: &Json) -> (r: Option<&Vec<(String, Json)>>)
    ensures
        match unwrap_map_spec(*v) {
            Some(e) => r matches Some(x) && x@ == e,
            None => r is None,
        },
{
    match v.get("map") {
        Some(Json::Object(inner)) => return Some(inner),
        _ => {}
    }
    match v {
        Json::Object(entries) => Some(entries),
        _ => None,
    }
}

#[verifier::external_type_specification]
#[verifier::external_body]
pub struct ExSerdeJsonValue(serde_json::Value);

/// The `serde_json::Value` that a value stands for, variant for variant.
#[verifier::external_body]
fn to_serde(v: &Json) -> Value {
    match v {
        Json::Null => Value::Null,
        Json::Bool(b) => Value::Bool(*b),
        Json::Number(JsonNumber::PosInt(n)) => Value::from(*n),
        Json::Number(JsonNumber::NegInt(n)) => Value::from(*n),
        Json::Number(JsonNumber::Float(n)) => Value::Number(n.clone()),
        Json::Str(s) => Value::String(s.clone()),
        Json::Array(items) => Value::Array(items.iter().map(to_serde).collect()),
        Json::Object(entries) => Value::Object(entries.iter().map(|(k, x)| (k.clone(), to_serde(x))).collect()),
    }
}

/// The compact JSON text `serde_json` writes for a value.
pub uninterp spec fn json_compact_text(v: Json) -> Seq<char>;

/// `serde_json::Value`'s `Display` (`to_string`): the value's compact JSON
/// text. The text is named, not spelled out.
#[verifier::external_body]
pub(crate) fn compact_text(v: &Json) -> (r: String)
    ensures
        r@ == json_compact_text(*v),
{
    to_serde(v).to_string()
}

/// The pretty JSON text `serde_json::to_string_pretty` writes for an array
/// of values, when it succeeds.
pub uninterp spec fn json_pretty_text(values: Seq<Json>) -> Option<Seq<char>>;

/// `serde_json::to_string_pretty` on an array of values. The text is named,
/// not spelled out.
#[verifier::external_body]
pub(crate) fn pretty_text(values: &Vec<Json>) -> (r: Option<String>)
    ensures
        match (r, json_pretty_text(values@)) {
            (Some(a), Some(b)) => a@ == b,
            (None, None) => true,
            _ => false,
        },
{
    let converted: Vec<Value> = values.iter().map(to_serde).collect();
    serde_json::to_string_pretty(&converted).ok()
}

/// How a value appears in a table cell or CSV field: a string's text, an
/// empty cell for null, the compact JSON text of anything else.
pub open spec fn cell_text(v: Json) -> Seq<char> {
    match v {
        Json::Str(s) => s@,
        Json::Null => Seq::empty(),
        _ => json_compact_text(v),
    }
}

/// The cell text of a value.
pub fn value_to_string(v: &Json) -> (r: String)
    ensures
        r@ == cell_text(*v),
{
    match v {
        Json::Str(s) => s.clone(),
        Json::Null => String::new(),
        _ => compact_text(v),
    }
}

} // verus!
