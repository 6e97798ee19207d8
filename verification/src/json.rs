//! JSON documents: a mathematical model of `serde_json`'s values, and what is
//! assumed of the operations on them that the proxy uses.

use serde_json::{Map as JsonMap, Value};
use vstd::prelude::*;

verus! {

/// A JSON number: an integer, or the bits of a double.
pub enum JsonNumber {
    Integer(int),
    Double(u64),
}

/// A JSON document as a mathematical value. The members of an object are
/// unordered and each name occurs once.
pub enum Json {
    Null,
    Bool(bool),
    Number(JsonNumber),
    Text(Seq<char>),
    Array(Seq<Json>),
    Object(Map<Seq<char>, Json>),
}

/// `serde_json::Value`, one JSON document. What it holds is [`document`].
#[verifier::external_type_specification]
#[verifier::external_body]
pub struct ExValue(serde_json::Value);

/// `serde_json::Map`, the members of a JSON object. What it holds is [`members`].
#[verifier::external_type_specification]
#[verifier::external_body]
#[verifier::reject_recursive_types(K)]
#[verifier::reject_recursive_types(V)]
pub struct ExJsonMap<K, V>(serde_json::Map<K, V>);

/// The document that a `serde_json::Value` holds.
pub uninterp spec fn document(value: serde_json::Value) -> Json;

/// The members that a `serde_json::Map` holds.
pub uninterp spec fn members(map: serde_json::Map<String, serde_json::Value>) -> Map<Seq<char>, Json>;

/// The members of the empty object.
pub open spec fn no_members() -> Map<Seq<char>, Json> {
    Map::empty()
}

/// The documents that the values of a sequence hold, in order.
pub open spec fn documents(values: Seq<Value>) -> Seq<Json> {
    values.map_values(|value: Value| document(value))
}

/// The member `name` of the object `json`; `None` if there is none, or if
/// `json` is not an object.
pub open spec fn member(json: Json, name: Seq<char>) -> Option<Json> {
    match json {
        Json::Object(fields) => if fields.contains_key(name) { Some(fields[name]) } else { None },
        _ => None,
    }
}

/// `serde_json::Value::as_str`: the text of a JSON string, `None` for any other
/// document.
pub assume_specification<'a>[ serde_json::Value::as_str ](value: &'a Value) -> (text: Option<&'a str>)
    ensures
        match text {
            Some(s) => document(*value) == Json::Text(s@),
            None => !(document(*value) is Text),
        },
;

/// `serde_json::Value::as_bool`: the truth value of a JSON boolean, `None` for
/// any other document.
pub assume_specification[ serde_json::Value::as_bool ](value: &Value) -> (flag: Option<bool>)
    ensures
        match flag {
            Some(b) => document(*value) == Json::Bool(b),
            None => !(document(*value) is Bool),
        },
;

/// `serde_json::Value::as_object_mut`: access to the members of a JSON object,
/// so that the object afterwards holds what the members then are; `None` for
/// any other document, which stays as it is.
pub assume_specification<'a>[ serde_json::Value::as_object_mut ](value: &'a mut Value) -> (fields: Option<&'a mut JsonMap<String, Value>>)
    ensures
        match fields {
            Some(map) => {
                &&& document(*old(value)) == Json::Object(members(*map))
                &&& document(*final(value)) == Json::Object(members(*final(map)))
            },
            None => !(document(*old(value)) is Object) && *final(value) == *old(value),
        },
;

/// `serde_json::Map::new`: a map without members.
pub assume_specification[ serde_json::Map::<String, Value>::new ]() -> (map: JsonMap<String, Value>)
    ensures
        members(map) == no_members(),
;

/// `serde_json::Map::insert`: the member takes the given value, whether or not
/// it was there before; the value it had is returned.
pub assume_specification[ serde_json::Map::<String, Value>::insert ](
    map: &mut JsonMap<String, Value>,
    name: String,
    value: Value,
) -> (previous: Option<Value>)
    ensures
        members(*final(map)) == members(*old(map)).insert(name@, document(value)),
        match previous {
            Some(v) => members(*old(map)).contains_key(name@) && members(*old(map))[name@] == document(v),
            None => !members(*old(map)).contains_key(name@),
        },
;

/// `serde_json::Value::get` with a member name: the member of a JSON object,
/// `None` if it is missing or the document is not an object.
#[verifier::external_body]
pub(crate) fn get_member<'a>(value: &'a Value, name: &str) -> (found: Option<&'a Value>)
    ensures
        match found {
            Some(v) => member(document(*value), name@) == Some(document(*v)),
            None => member(document(*value), name@) is None,
        },
{
    value.get(name)
}

/// `serde_json::Map::remove`: takes the member out of the map and returns its
/// value, `None` if there is no such member.
#[verifier::external_body]
pub(crate) fn remove_member(map: &mut JsonMap<String, Value>, name: &str) -> (removed: Option<Value>)
    ensures
        members(*final(map)) == members(*old(map)).remove(name@),
        match removed {
            Some(v) => members(*old(map)).contains_key(name@) && members(*old(map))[name@] == document(v),
            None => !members(*old(map)).contains_key(name@),
        },
{
    map.remove(name)
}

/// `serde_json::Value::String`: a JSON string of the given text.
#[verifier::external_body]
pub(crate) fn text_value(content: String) -> (value: Value)
    ensures
        document(value) == Json::Text(content@),
{
    Value::String(content)
}

/// `serde_json::Value::Bool`: a JSON boolean.
#[verifier::external_body]
pub(crate) fn bool_value(flag: bool) -> (value: Value)
    ensures
        document(value) == Json::Bool(flag),
{
    Value::Bool(flag)
}

/// `serde_json::Value::from` of a `u64`: the JSON integer of that number.
#[verifier::external_body]
pub(crate) fn integer_value(number: u64) -> (value: Value)
    ensures
        document(value) == Json::Number(JsonNumber::Integer(number as int)),
{
    Value::from(number)
}

/// `serde_json::Value::Array`: a JSON array of the given elements.
#[verifier::external_body]
pub(crate) fn array_value(items: Vec<Value>) -> (value: Value)
    ensures
        document(value) == Json::Array(documents(items@)),
{
    Value::Array(items)
}

/// `serde_json::Value::Object`: a JSON object with the given members.
#[verifier::external_body]
pub(crate) fn object_value(fields: JsonMap<String, Value>) -> (value: Value)
    ensures
        document(value) == Json::Object(members(fields)),
{
    Value::Object(fields)
}

} // verus!
