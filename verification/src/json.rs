//! JSON documents, read through `serde_json`.
//!
//! A parsed document stays a `serde_json::Value`. What the verified code knows
//! of one is its content, [`json_of`], a value of the ghost type [`Json`]; the
//! functions of this module are the only ones that look inside a document, and
//! each says over `json_of` what it found.

use vstd::prelude::*;

verus! {

#[verifier::external_type_specification]
#[verifier::external_body]
pub struct ExValue(serde_json::Value);

/// The content of a JSON document.
///
/// A number is held as the binary64 bit pattern that it reads as. An object
/// maps each key to the value that the document gives it last.
pub ghost enum Json {
    Null,
    Bool(bool),
    Number(u64),
    Text(Seq<char>),
    Array(Seq<Json>),
    Object(Map<Seq<char>, Json>),
}

/// The content of a parsed document.
pub uninterp spec fn json_of(v: serde_json::Value) -> Json;

/// What parsing `text` as one JSON document gives: its content, or the
/// parser's message where `text` is no JSON document.
pub uninterp spec fn json_parse(text: Seq<char>) -> Result<Json, Seq<char>>;

/// The contents of a run of documents, in order.
pub open spec fn json_of_all(items: Seq<serde_json::Value>) -> Seq<Json> {
    Seq::new(items.len(), |i: int| json_of(items[i]))
}

/// The member `key` of `j`, where `j` is an object that has one.
pub open spec fn json_member(j: Json, key: Seq<char>) -> Option<Json> {
    match j {
        Json::Object(members) => if members.contains_key(key) {
            Some(members[key])
        } else {
            None
        },
        _ => None,
    }
}

/// `serde_json::from_str` at type `Value`: parses `text` as one JSON document.
/// An error comes back as its message, the text that `to_string` gives.
/// The contract only names the outcome: it is `json_parse` of the text.
#[verifier::external_body]
pub(crate) fn parse(text: &str) -> (r: Result<serde_json::Value, String>)
    ensures
        match r {
            Ok(v) => json_parse(text@) == Ok::<Json, Seq<char>>(json_of(v)),
            Err(m) => json_parse(text@) == Err::<Json, Seq<char>>(m@),
        },
{
    serde_json::from_str::<serde_json::Value>(text).map_err(|e| e.to_string())
}

/// `Value::get` with a string index: the member `key` of an object, `None`
/// for an object without that key and for anything that is no object.
#[verifier::external_body]
pub(crate) fn member<'a>(v: &'a serde_json::Value, key: &str) -> (r: Option<&'a serde_json::Value>)
    ensures
        match r {
            Some(m) => json_member(json_of(*v), key@) == Some(json_of(*m)),
            None => json_member(json_of(*v), key@) is None,
        },
{
    v.get(key)
}

/// `Value::as_str`: the text of a string, `None` for anything else.
#[verifier::external_body]
pub(crate) fn text<'a>(v: &'a serde_json::Value) -> (r: Option<&'a str>)
    ensures
        match r {
            Some(s) => json_of(*v) == Json::Text(s@),
            None => !(json_of(*v) is Text),
        },
{
    v.as_str()
}

/// `Value::as_array`: the elements of an array, `None` for anything else.
#[verifier::external_body]
pub(crate) fn elements<'a>(v: &'a serde_json::Value) -> (r: Option<&'a Vec<serde_json::Value>>)
    ensures
        match r {
            Some(items) => json_of(*v) == Json::Array(json_of_all(items@)),
            None => !(json_of(*v) is Array),
        },
{
    v.as_array()
}

/// `Value::as_f64`: the number as a binary64, handed out by its bit pattern;
/// `None` for anything that is no number. Every number reads as a binary64
/// as long as `serde_json` is built without arbitrary precision, which is how
/// this crate asks for it.
#[verifier::external_body]
pub(crate) fn number(v: &serde_json::Value) -> (r: Option<u64>)
    ensures
        match r {
            Some(bits) => json_of(*v) == Json::Number(bits),
            None => !(json_of(*v) is Number),
        },
{
    v.as_f64().map(|x| x.to_bits())
}

/// `Value::is_null`.
#[verifier::external_body]
pub(crate) fn is_null(v: &serde_json::Value) -> (r: bool)
    ensures
        r == (json_of(*v) is Null),
{
    v.is_null()
}

/// `Value::clone`: a copy with the same content.
#[verifier::external_body]
pub(crate) fn duplicate(v: &serde_json::Value) -> (r: serde_json::Value)
    ensures
        json_of(r) == json_of(*v),
{
    v.clone()
}

} // verus!
