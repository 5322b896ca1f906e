//! JSON values as the program reads them, parsed by serde_json.
use vstd::prelude::*;

use crate::text::str_eq;

verus! {

/// A JSON value. Numbers are kept as the text that serde_json prints for them; an object's
/// members come in the order of serde_json's map (sorted by key, each key once).
pub enum Json {
    Null,
    Bool(bool),
    Number(String),
    Str(String),
    Array(Vec<Json>),
    Object(Vec<(String, Json)>),
}

#[verifier::external_type_specification]
#[verifier::external_body]
pub struct ExJsonValue(serde_json::Value);

/// What `serde_json::from_str::<serde_json::Value>` makes of the text `text`, converted to
/// `Json`; `None` when the text is not one JSON value.
pub uninterp spec fn json_parse(text: Seq<char>) -> Option<Json>;

/// Converts a `serde_json::Value` to `Json`, variant by variant.
#[verifier::external_body]
fn json_from_value(v: serde_json::Value) -> Json {
    match v {
        serde_json::Value::Null => Json::Null,
        serde_json::Value::Bool(b) => Json::Bool(b),
        serde_json::Value::Number(n) => Json::Number(n.to_string()),
        serde_json::Value::String(s) => Json::Str(s),
        serde_json::Value::Array(a) => Json::Array(a.into_iter().map(json_from_value).collect()),
        serde_json::Value::Object(o) => Json::Object(
            o.into_iter().map(|(k, x)| (k, json_from_value(x))).collect(),
        ),
    }
}

/// `serde_json::from_str::<serde_json::Value>`: the contract names its result
/// `json_parse(text@)`, a function of the text alone; the JSON grammar is not stated.
#[verifier::external_body]
pub(crate) fn parse_json(text: &str) -> (r: Option<Json>)
    ensures
        r == json_parse(text@),
{
    serde_json::from_str::<serde_json::Value>(text).ok().map(json_from_value)
}

/// The index of the first member of `m` at or after `from` whose key is `key`, or `m.len()`.
pub open spec fn member_index(m: Seq<(String, Json)>, key: Seq<char>, from: int) -> int
    decreases m.len() - from,
{
    if from < 0 || from >= m.len() {
        m.len() as int
    } else if m[from].0@ == key {
        from
    } else {
        member_index(m, key, from + 1)
    }
}

/// The member `key` of the object `j` (`j[key]`, `None` standing for JSON null).
pub open spec fn member(j: Json, key: Seq<char>) -> Option<Json> {
    match j {
        Json::Object(m) => {
            let i = member_index(m@, key, 0);
            if i < m@.len() {
                Some(m@[i].1)
            } else {
                None
            }
        },
        _ => None,
    }
}

/// The text of a JSON string (`as_str`).
pub open spec fn as_text(j: Option<Json>) -> Option<Seq<char>> {
    match j {
        Some(Json::Str(s)) => Some(s@),
        _ => None,
    }
}

/// The text of the string member `key` of `j` (`j[key].as_str()`).
pub open spec fn text_member(j: Json, key: Seq<char>) -> Option<Seq<char>> {
    as_text(member(j, key))
}

/// `j[key].as_str()`, copied.
pub fn text_field(j: &Json, key: &str) -> (r: Option<String>)
    ensures
        match r {
            Some(s) => text_member(*j, key@) == Some(s@),
            None => text_member(*j, key@) is None,
        },
{
    match j {
        Json::Object(m) => {
            let mut i: usize = 0;
            while i < m.len() && !str_eq(m[i].0.as_str(), key)
                invariant
                    i <= m@.len(),
                    member_index(m@, key@, 0) == member_index(m@, key@, i as int),
                decreases m@.len() - i,
            {
                i = i + 1;
            }
            if i < m.len() {
                match &m[i].1 {
                    Json::Str(s) => Some(s.clone()),
                    _ => None,
                }
            } else {
                None
            }
        },
        _ => None,
    }
}

} // verus!
