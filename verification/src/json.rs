//! JSON values, kept and written by `serde_json`.
use vstd::prelude::*;

verus! {

/// A JSON value of `serde_json`.
#[verifier::external_type_specification]
#[verifier::external_body]
pub struct ExValue(serde_json::Value);

/// What a JSON value holds. A number that is no integer is held by the bits of
/// its double.
pub enum Json {
    Null,
    Bool(bool),
    Integer(int),
    Double(u64),
    Text(Seq<char>),
    List(Seq<Json>),
    Dict(Map<Seq<char>, Json>),
}

/// What a `serde_json::Value` holds.
pub uninterp spec fn json_of(v: serde_json::Value) -> Json;

/// The compact text that `serde_json` writes for a JSON value.
pub uninterp spec fn json_text(j: Json) -> Seq<char>;

/// What each of the values holds.
pub open spec fn jsons(values: Seq<serde_json::Value>) -> Seq<Json> {
    values.map_values(|v: serde_json::Value| json_of(v))
}

/// `serde_json::Value::from` on a string: the JSON string of the same characters.
#[verifier::external_body]
pub(crate) fn text_value(s: String) -> (v: serde_json::Value)
    ensures
        json_of(v) == Json::Text(s@),
{
    serde_json::Value::from(s)
}

/// `serde_json::Value::from` on an integer: the JSON number of the same value.
#[verifier::external_body]
pub(crate) fn integer_value(n: i64) -> (v: serde_json::Value)
    ensures
        json_of(v) == Json::Integer(n as int),
{
    serde_json::Value::from(n)
}

/// `serde_json::Value::Array`: the JSON array of the given values, in their order.
#[verifier::external_body]
pub(crate) fn list_value(items: Vec<serde_json::Value>) -> (v: serde_json::Value)
    ensures
        json_of(v) == Json::List(jsons(items@)),
{
    serde_json::Value::Array(items)
}

/// `serde_json::Map::new`, as a value: the JSON object without entries.
#[verifier::external_body]
pub(crate) fn empty_dict() -> (v: serde_json::Value)
    ensures
        json_of(v) == Json::Dict(Map::empty()),
{
    serde_json::Value::Object(serde_json::Map::new())
}

/// Assignment to an indexed `serde_json::Value`: on an object, it sets the entry
/// of that key and leaves the others. On most other values it panics, so only
/// objects are admitted.
#[verifier::external_body]
pub(crate) fn set_entry(v: &mut serde_json::Value, key: &str, value: serde_json::Value)
    requires
        json_of(*old(v)) is Dict,
    ensures
        json_of(*final(v)) == Json::Dict(json_of(*old(v))->Dict_0.insert(key@, json_of(value))),
{
    v[key] = value;
}

/// `serde_json::Value::get` with a string: the entry of that key in an object,
/// nothing where there is none or where the value is no object.
#[verifier::external_body]
pub(crate) fn entry<'a>(v: &'a serde_json::Value, key: &str) -> (r: Option<&'a serde_json::Value>)
    ensures
        match json_of(*v) {
            Json::Dict(entries) => if entries.dom().contains(key@) {
                r matches Some(found) && json_of(*found) == entries[key@]
            } else {
                r is None
            },
            _ => r is None,
        },
{
    v.get(key)
}

/// `serde_json::Value::as_str`: the characters of a JSON string, nothing for any
/// other value.
pub assume_specification[ serde_json::Value::as_str ](v: &serde_json::Value) -> (r: Option<&str>)
    ensures
        match json_of(*v) {
            Json::Text(chars) => r matches Some(s) && s@ == chars,
            _ => r is None,
        },
;

/// `to_string` on a `serde_json::Value`: its compact JSON text. Objects are written
/// in the order of their keys, so the text depends on nothing but what the value
/// holds.
#[verifier::external_body]
pub(crate) fn text_of_value(v: &serde_json::Value) -> (r: String)
    ensures
        r@ == json_text(json_of(*v)),
{
    v.to_string()
}

} // verus!
