//! JSON documents as plain values, and the two trusted calls into
//! `serde_json` that read and write their text.

use vstd::prelude::*;

verus! {

/// A JSON document.
///
/// Numbers keep the distinction the parser makes: non-negative integers,
/// negative integers, and the rest, which is kept as the text the parser
/// prints for it. An object holds its members as the parser gives them:
/// sorted by name, a repeated name keeping its last value.
#[derive(Debug, PartialEq)]
pub enum JsonValue {
    Null,
    Bool(bool),
    UInt(u64),
    Int(i64),
    Fraction(String),
    Str(String),
    Array(Vec<JsonValue>),
    Object(Vec<(String, JsonValue)>),
}

#[verifier::external_type_specification]
#[verifier::external_body]
pub struct ExSerdeJsonValue(serde_json::Value);

/// The document that `serde_json` reads from a text, if the text is JSON.
pub uninterp spec fn json_of_text(s: Seq<char>) -> Option<JsonValue>;

/// The text that `serde_json` writes for a document.
pub uninterp spec fn text_of_json(v: JsonValue) -> Seq<char>;

/// Relies on `serde_json::Value`'s variants, taken one for one.
#[verifier::external_body]
fn from_serde(v: serde_json::Value) -> JsonValue {
    match v {
        serde_json::Value::Null => JsonValue::Null,
        serde_json::Value::Bool(b) => JsonValue::Bool(b),
        serde_json::Value::Number(n) => match (n.as_u64(), n.as_i64()) {
            (Some(u), _) => JsonValue::UInt(u),
            (None, Some(i)) => JsonValue::Int(i),
            (None, None) => JsonValue::Fraction(n.to_string()),
        },
        serde_json::Value::String(s) => JsonValue::Str(s),
        serde_json::Value::Array(a) => JsonValue::Array(a.into_iter().map(from_serde).collect()),
        serde_json::Value::Object(o) => JsonValue::Object(o.into_iter().map(|(k, x)| (k, from_serde(x))).collect()),
    }
}

/// Relies on `serde_json::Value`'s variants, taken one for one; a fraction
/// is read back from the text the parser printed for it.
#[verifier::external_body]
fn to_serde(v: &JsonValue) -> serde_json::Value {
    match v {
        JsonValue::Null => serde_json::Value::Null,
        JsonValue::Bool(b) => serde_json::Value::Bool(*b),
        JsonValue::UInt(u) => serde_json::Value::from(*u),
        JsonValue::Int(i) => serde_json::Value::from(*i),
        JsonValue::Fraction(t) => serde_json::from_str(t).unwrap_or(serde_json::Value::Null),
        JsonValue::Str(s) => serde_json::Value::String(s.clone()),
        JsonValue::Array(a) => serde_json::Value::Array(a.iter().map(to_serde).collect()),
        JsonValue::Object(o) => serde_json::Value::Object(o.iter().map(|(k, x)| (k.clone(), to_serde(x))).collect()),
    }
}

/// Relies on `serde_json::from_str`: reads one JSON document from a text,
/// and fails on anything else. The result depends on the text alone.
#[verifier::external_body]
pub fn parse_json(text: &str) -> (r: Option<JsonValue>)
    ensures
        r == json_of_text(text@),
{
    serde_json::from_str::<serde_json::Value>(text).ok().map(from_serde)
}

/// Relies on `serde_json::to_string`: the compact JSON text of a document.
/// A document of string-keyed objects cannot fail to serialise.
#[verifier::external_body]
pub fn json_text(v: &JsonValue) -> (r: String)
    ensures
        r@ == text_of_json(*v),
{
    serde_json::to_string(&to_serde(v)).unwrap_or_default()
}

/// The position of the first member named `key`.
pub open spec fn member_index(fields: Seq<(String, JsonValue)>, key: Seq<char>) -> Option<int>
    decreases fields.len(),
{
    if fields.len() == 0 {
        None
    } else if fields[0].0@ == key {
        Some(0)
    } else {
        match member_index(fields.drop_first(), key) {
            Some(i) => Some(i + 1),
            None => None,
        }
    }
}

/// The value of the first member named `key`.
pub open spec fn member(fields: Seq<(String, JsonValue)>, key: Seq<char>) -> Option<JsonValue> {
    match member_index(fields, key) {
        Some(i) => Some(fields[i].1),
        None => None,
    }
}

pub proof fn lemma_member_index_bounds(fields: Seq<(String, JsonValue)>, key: Seq<char>)
    ensures
        member_index(fields, key) matches Some(i) ==> 0 <= i < fields.len() && fields[i].0@ == key,
    decreases fields.len(),
{
    if fields.len() > 0 && fields[0].0@ != key {
        lemma_member_index_bounds(fields.drop_first(), key);
    }
}

/// Finds the first member named `key`.
pub fn find_member(fields: &Vec<(String, JsonValue)>, key: &str) -> (r: Option<usize>)
    ensures
        r matches Some(i) ==> member_index(fields@, key@) == Some(i as int),
        r is None ==> member_index(fields@, key@) is None,
{
    let name = key.to_owned();
    let mut i: usize = 0;
    assert(fields@.skip(0) =~= fields@);
    while i < fields.len()
        invariant
            i <= fields@.len(),
            name@ == key@,
            member_index(fields@, key@) == match member_index(fields@.skip(i as int), key@) {
                Some(j) => Some(j + i),
                None => None::<int>,
            },
        decreases fields@.len() - i,
    {
        assert(fields@.skip(i as int).drop_first() =~= fields@.skip(i + 1));
        if fields[i].0 == name {
            return Some(i);
        }
        i = i + 1;
    }
    None
}

} // verus!
