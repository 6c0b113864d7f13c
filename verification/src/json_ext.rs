//! JSON values as far as the router reads them, and paths into a response.

use serde_json_bytes::ByteString;
use std::str::FromStr;
use vstd::prelude::*;

verus! {

/// The string type of [`serde_json_bytes`].
#[verifier::external_type_specification]
#[verifier::external_body]
pub struct ExByteString(serde_json_bytes::ByteString);

/// The value type of [`serde_json_bytes`].
#[verifier::external_type_specification]
#[verifier::external_body]
pub struct ExBytesValue(serde_json_bytes::Value);

/// The map type of [`serde_json_bytes`].
#[verifier::external_type_specification]
#[verifier::external_body]
#[verifier::reject_recursive_types(K)]
#[verifier::reject_recursive_types(V)]
pub struct ExBytesMap<K, V>(serde_json_bytes::Map<K, V>);

/// The value type of [`serde_json`].
#[verifier::external_type_specification]
#[verifier::external_body]
pub struct ExJsonValue(serde_json::Value);

/// The error type of [`serde_json`].
#[verifier::external_type_specification]
#[verifier::external_body]
pub struct ExJsonError(serde_json::Error);

/// A JSON object, such as the variables of a request.
pub type Object = serde_json_bytes::Map<ByteString, serde_json_bytes::Value>;

/// A JSON value: a boolean, or anything else.
#[derive(Debug, Clone, Copy, PartialEq, Eq, Structural)]
pub enum JsonValue {
    Boolean(bool),
    Other,
}

impl JsonValue {
    /// The boolean that the value is, if it is one.
    pub open spec fn boolean(self) -> Option<bool> {
        match self {
            JsonValue::Boolean(b) => Some(b),
            JsonValue::Other => None,
        }
    }

    /// The boolean that the value is, if it is one.
    pub fn as_bool(&self) -> (b: Option<bool>)
        ensures
            b == self.boolean(),
    {
        match self {
            JsonValue::Boolean(b) => Some(*b),
            JsonValue::Other => None,
        }
    }
}

/// The member under a name, if there is one.
pub open spec fn member_of(members: Map<Seq<char>, JsonValue>, name: Seq<char>) -> Option<
    JsonValue,
> {
    if members.contains_key(name) {
        Some(members[name])
    } else {
        None
    }
}

/// The members of an object by their names.
pub uninterp spec fn object_members(
    object: serde_json_bytes::Map<ByteString, serde_json_bytes::Value>,
) -> Map<Seq<char>, JsonValue>;

/// The member of an object under a name, if there is one: `serde_json_bytes::Map::get`, with the
/// value that it finds told apart as a boolean or anything else.
#[verifier::external_body]
pub(crate) fn object_member(object: &Object, name: &str) -> (member: Option<JsonValue>)
    ensures
        member == member_of(object_members(*object), name@),
{
    match object.get(name) {
        Some(serde_json_bytes::Value::Bool(b)) => Some(JsonValue::Boolean(*b)),
        Some(_) => Some(JsonValue::Other),
        None => None,
    }
}

/// The members of the object that a JSON value is, by their names; none where it is not an object.
pub uninterp spec fn value_members(value: serde_json::Value) -> Map<Seq<char>, JsonValue>;

/// The members of the object that a JSON text is, by their names: none where it is another value,
/// and no map at all where it is not JSON.
pub uninterp spec fn text_members(text: Seq<char>) -> Option<Map<Seq<char>, JsonValue>>;

/// Reads a text as JSON: `serde_json::Value::from_str`. Whether it is JSON, and which members it
/// has, depends on the text alone.
#[verifier::external_body]
pub(crate) fn parse_json(text: &str) -> (result: Result<serde_json::Value, serde_json::Error>)
    ensures
        match text_members(text@) {
            Some(members) => result is Ok && value_members(result->Ok_0) == members,
            None => result is Err,
        },
{
    serde_json::Value::from_str(text)
}

/// The member of a JSON value under a name, if it is an object that has one:
/// `serde_json::Value::get`, with the value that it finds told apart as a boolean or anything else.
#[verifier::external_body]
pub(crate) fn value_member(value: &serde_json::Value, name: &str) -> (member: Option<JsonValue>)
    ensures
        member == member_of(value_members(*value), name@),
{
    match value.get(name) {
        Some(serde_json::Value::Bool(b)) => Some(JsonValue::Boolean(*b)),
        Some(_) => Some(JsonValue::Other),
        None => None,
    }
}

/// One step of a path into a response.
#[derive(Debug)]
pub enum PathElement {
    /// Every element of an array.
    Flatten,
    /// The element of an array at an index.
    Index(usize),
    /// A fragment that applies to the type of that name.
    Fragment(String),
    /// The member of an object under that key.
    Key(String),
}

} // verus!
