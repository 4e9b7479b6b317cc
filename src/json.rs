//! The structured-data layer: JSON values, and their JSON and YAML texts, as
//! serde_json and serde_yaml compute them.
use serde_json::Value;
use vstd::prelude::*;

verus! {

/// A JSON-like value: null, bool, number, string, array or object.
#[verifier::external_type_specification]
#[verifier::external_body]
pub struct ExValue(serde_json::Value);

/// Relies on the derived `Clone` of serde_json::Value: the copy is equal to
/// the original.
pub assume_specification[ <serde_json::Value as Clone>::clone ](v: &serde_json::Value) -> (r:
    serde_json::Value)
    ensures
        r == *v,
;

/// The value that a JSON text denotes, or `None` where the text is not JSON.
pub uninterp spec fn json_parse_of(s: Seq<char>) -> Option<Value>;

/// The string value holding exactly the characters `s`.
pub uninterp spec fn json_string(s: Seq<char>) -> Value;

/// The value that a YAML text denotes, or `None` where the text is not YAML
/// that maps onto a JSON-like value.
pub uninterp spec fn yaml_parse_of(s: Seq<char>) -> Option<Value>;

/// The members of an object value, or `None` where the value is no object.
pub uninterp spec fn object_members_of(v: Value) -> Option<Seq<(Seq<char>, Value)>>;

/// The object value built from the given members.
pub uninterp spec fn object_of(members: Seq<(Seq<char>, Value)>) -> Value;

/// The YAML text of a value, or `None` where it cannot be written.
pub uninterp spec fn yaml_text_of(v: Value) -> Option<Seq<char>>;

/// The compact JSON text of a value, or `None` where it cannot be written.
pub uninterp spec fn json_text_of(v: Value) -> Option<Seq<char>>;

/// The pairs of a list, with each key seen as its characters.
pub open spec fn member_view(pairs: Seq<(String, Value)>) -> Seq<(Seq<char>, Value)> {
    crate::keymap::keyed(pairs)
}

/// Relies on serde_json::from_str::<Value>: parses a JSON text.
#[verifier::external_body]
pub(crate) fn parse_json(s: &str) -> (r: Option<Value>)
    ensures
        r == json_parse_of(s@),
{
    serde_json::from_str::<Value>(s).ok()
}

/// Relies on the constructor serde_json::Value::String.
#[verifier::external_body]
pub(crate) fn string_value(s: String) -> (r: Value)
    ensures
        r == json_string(s@),
{
    Value::String(s)
}

/// Relies on serde_yaml::from_str::<Value>: parses a YAML text into a
/// JSON-like value; the error is serde_yaml's message.
#[verifier::external_body]
pub(crate) fn parse_yaml(s: &str) -> (r: Result<Value, String>)
    ensures
        r is Ok <==> yaml_parse_of(s@) is Some,
        r is Ok ==> r->Ok_0 == yaml_parse_of(s@)->Some_0,
{
    serde_yaml::from_str::<Value>(s).map_err(|e| e.to_string())
}

/// Relies on serde_json::Value::as_object: the members of an object, in the
/// order of its map.
#[verifier::external_body]
pub(crate) fn object_members(v: &Value) -> (r: Option<Vec<(String, Value)>>)
    ensures
        r is Some <==> object_members_of(*v) is Some,
        r is Some ==> member_view(r->Some_0@) == object_members_of(*v)->Some_0,
{
    match v.as_object() {
        Some(m) => Some(m.clone().into_iter().collect()),
        None => None,
    }
}

/// Relies on the `FromIterator` impl of serde_json::Map: builds an object
/// value from its members.
#[verifier::external_body]
pub(crate) fn object_value(members: Vec<(String, Value)>) -> (r: Value)
    ensures
        r == object_of(member_view(members@)),
{
    Value::Object(members.into_iter().collect())
}

/// Relies on serde_yaml::to_string: writes a value as YAML text; the error is
/// serde_yaml's message.
#[verifier::external_body]
pub(crate) fn yaml_text(v: &Value) -> (r: Result<String, String>)
    ensures
        r is Ok <==> yaml_text_of(*v) is Some,
        r is Ok ==> r->Ok_0@ == yaml_text_of(*v)->Some_0,
{
    serde_yaml::to_string(v).map_err(|e| e.to_string())
}

/// Relies on serde_json::to_string: writes a value as compact JSON text; the
/// error is serde_json's message.
#[verifier::external_body]
pub(crate) fn json_text(v: &Value) -> (r: Result<String, String>)
    ensures
        r is Ok <==> json_text_of(*v) is Some,
        r is Ok ==> r->Ok_0@ == json_text_of(*v)->Some_0,
{
    serde_json::to_string(v).map_err(|e| e.to_string())
}

} // verus!
