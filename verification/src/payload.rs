//! The semi-structured payload of a record, as the JSON decoder hands it over.

use vstd::prelude::*;

verus! {

/// `serde_json::Value`: a JSON value. Its inside is reached through
/// [`unfold`] only.
#[verifier::external_type_specification]
#[verifier::external_body]
pub struct ExJsonValue(serde_json::Value);

/// `serde_json::Number`: a JSON number. Its inside is reached through
/// `as_u64` only.
#[verifier::external_type_specification]
#[verifier::external_body]
pub struct ExJsonNumber(serde_json::Number);

/// The mathematical form of a payload: a finite tree with one kind of node
/// for each shape that a JSON value can take.
pub enum Payload {
    Null,
    Bool(bool),
    Number(serde_json::Number),
    Text(Seq<char>),
    Array(Seq<Payload>),
    /// The entries of a mapping, in the order in which the value yields them.
    Mapping(Seq<(Seq<char>, Payload)>),
}

/// What a JSON value holds: its variant, and under it the number, the
/// characters of the string, the items of the array in order, or the entries
/// of the object in the order in which iterating over the object yields them.
pub uninterp spec fn payload_of(value: serde_json::Value) -> Payload;

/// What `serde_json::Number::as_u64` returns for a number.
pub uninterp spec fn number_as_u64(number: serde_json::Number) -> Option<u64>;

/// `serde_json::Number::as_u64`: the number as a `u64` where it is an integer
/// that fits, and `None` otherwise. The result depends on the number alone.
pub assume_specification[ serde_json::Number::as_u64 ](number: &serde_json::Number) -> (value:
    Option<u64>)
    ensures
        value == number_as_u64(*number),
;

/// The top level of a payload: which shape it has, with what lies below still
/// in the decoder's own representation.
pub enum Shape {
    Null,
    Bool(bool),
    Number(serde_json::Number),
    Text(String),
    Array(Vec<serde_json::Value>),
    Mapping(Vec<(String, serde_json::Value)>),
}

impl Shape {
    /// The payload that has this top level.
    pub open spec fn payload(self) -> Payload {
        match self {
            Shape::Null => Payload::Null,
            Shape::Bool(flag) => Payload::Bool(flag),
            Shape::Number(number) => Payload::Number(number),
            Shape::Text(text) => Payload::Text(text@),
            Shape::Array(items) => Payload::Array(
                Seq::new(items.len() as nat, |i: int| payload_of(items[i])),
            ),
            Shape::Mapping(entries) => Payload::Mapping(
                Seq::new(entries.len() as nat, |i: int| (entries[i].0@, payload_of(entries[i].1))),
            ),
        }
    }
}

/// Takes a `serde_json::Value` apart by one level: one arm for each variant
/// of the enum, each moving the variant's content over unchanged. An object
/// hands its entries out through `serde_json::Map::into_iter`, in that
/// iterator's order.
#[verifier::external_body]
pub(crate) fn unfold(value: serde_json::Value) -> (shape: Shape)
    ensures
        shape.payload() == payload_of(value),
{
    match value {
        serde_json::Value::Null => Shape::Null,
        serde_json::Value::Bool(flag) => Shape::Bool(flag),
        serde_json::Value::Number(number) => Shape::Number(number),
        serde_json::Value::String(text) => Shape::Text(text),
        serde_json::Value::Array(items) => Shape::Array(items),
        serde_json::Value::Object(entries) => Shape::Mapping(entries.into_iter().collect()),
    }
}

} // verus!
