//! A JSON document as plain values, and the parse of JSON text.

use vstd::prelude::*;
use crate::collections::lookup;

verus! {

/// A JSON value. Numbers are kept as their text; the game rules never read them.
pub enum JsonValue {
    Null,
    Bool(bool),
    Number(String),
    Str(String),
    Array(Vec<JsonValue>),
    Object(Vec<(String, JsonValue)>),
}

/// The members of an object keyed by their names as character sequences.
pub open spec fn members(entries: Seq<(String, JsonValue)>) -> Seq<(Seq<char>, JsonValue)> {
    entries.map_values(|p: (String, JsonValue)| (p.0@, p.1))
}

/// The member `key` of an object; `None` for a missing member or a value that is no object.
pub open spec fn json_get(v: JsonValue, key: Seq<char>) -> Option<JsonValue> {
    match v {
        JsonValue::Object(entries) => lookup(members(entries@), key),
        _ => None,
    }
}

/// The string member `key` of an object, if it is a string.
pub open spec fn str_member(v: JsonValue, key: Seq<char>) -> Option<String> {
    match json_get(v, key) {
        Some(JsonValue::Str(s)) => Some(s),
        _ => None,
    }
}

/// The boolean member `key` of an object, if it is a boolean.
pub open spec fn bool_member(v: JsonValue, key: Seq<char>) -> Option<bool> {
    match json_get(v, key) {
        Some(JsonValue::Bool(b)) => Some(b),
        _ => None,
    }
}

impl JsonValue {
    /// The member `key` of an object.
    pub fn get(&self, key: &str) -> (r: Option<&JsonValue>)
        ensures
            match r {
                Some(x) => json_get(*self, key@) == Some(*x),
                None => json_get(*self, key@) is None,
            },
    {
        match self {
            JsonValue::Object(entries) => {
                assert(json_get(*self, key@) == lookup(members(entries@), key@));
                let mut i: usize = entries.len();
                assert(members(entries@).take(i as int) =~= members(entries@));
                while i > 0
                    invariant
                        i <= entries.len(),
                        json_get(*self, key@) == lookup(members(entries@), key@),
                        lookup(members(entries@), key@) == lookup(members(entries@).take(i as int), key@),
                    decreases i,
                {
                    assert(members(entries@).take(i as int).drop_last() =~= members(entries@).take(i - 1));
                    if entries[i - 1].0.as_str().eq(key) {
                        assert(members(entries@).take(i as int).last() == (entries@[i - 1].0@, entries@[i - 1].1));
                        assert(lookup(members(entries@).take(i as int), key@) == Some(entries@[i - 1].1));
                        return Some(&entries[i - 1].1);
                    }
                    i -= 1;
                }
                None
            },
            _ => None,
        }
    }

    /// The string member `key`, if present and a string.
    pub fn get_str(&self, key: &str) -> (r: Option<&String>)
        ensures
            match r {
                Some(s) => str_member(*self, key@) == Some(*s),
                None => str_member(*self, key@) is None,
            },
    {
        match self.get(key) {
            Some(JsonValue::Str(s)) => Some(s),
            _ => None,
        }
    }

    /// The boolean member `key`, if present and a boolean.
    pub fn get_bool(&self, key: &str) -> (r: Option<bool>)
        ensures
            r == bool_member(*self, key@),
    {
        match self.get(key) {
            Some(JsonValue::Bool(b)) => Some(*b),
            _ => None,
        }
    }
}

#[verifier::external_type_specification]
#[verifier::external_body]
pub struct ExSerdeJsonValue(serde_json::Value);

/// What `serde_json::from_str::<serde_json::Value>` yields for a text, as a
/// `JsonValue`; `None` where the text is no JSON document.
pub uninterp spec fn parsed_json(text: Seq<char>) -> Option<JsonValue>;

/// Parses JSON text.
///
/// Trusted: calls `serde_json::from_str::<serde_json::Value>` and converts the
/// value one for one; the contract only names the result.
#[verifier::external_body]
pub(crate) fn parse_json(text: &str) -> (r: Option<JsonValue>)
    ensures
        r == parsed_json(text@),
{
    serde_json::from_str::<serde_json::Value>(text).ok().map(json_from_serde)
}

/// The JSON document a text holds; `None` where the text is no JSON document.
pub fn parse_json_text(text: &str) -> (r: Option<JsonValue>)
    ensures
        r == parsed_json(text@),
{
    parse_json(text)
}

/// Converts a `serde_json::Value` variant by variant, keeping strings, booleans,
/// the text of numbers, and object members in the order the map yields them.
#[verifier::external_body]
fn json_from_serde(v: serde_json::Value) -> JsonValue {
    match v {
        serde_json::Value::Null => JsonValue::Null,
        serde_json::Value::Bool(b) => JsonValue::Bool(b),
        serde_json::Value::Number(n) => JsonValue::Number(n.to_string()),
        serde_json::Value::String(s) => JsonValue::Str(s),
        serde_json::Value::Array(a) => JsonValue::Array(a.into_iter().map(json_from_serde).collect()),
        serde_json::Value::Object(m) => JsonValue::Object(m.into_iter().map(|(k, x)| (k, json_from_serde(x))).collect()),
    }
}

} // verus!
