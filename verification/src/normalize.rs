//! Normalization of payloads into typed values.

use vstd::prelude::*;
use crate::payload::{number_as_u64, payload_of, unfold, Payload, Shape};
use crate::value::{Attribute, AttributeModel, AttributeSet, AttributeValue, ValueModel};

verus! {

/// What `str::to_lowercase` returns for a string with the given characters.
pub uninterp spec fn lowercase(text: Seq<char>) -> Seq<char>;

/// `str::to_lowercase`: the lowercase equivalent of the string, as a new
/// string. The result depends on the characters alone.
pub assume_specification[ str::to_lowercase ](text: &str) -> (lowered: String)
    ensures
        lowered@ == lowercase(text@),
;

/// The attribute that one entry of a mapping becomes: its key in lowercase,
/// its value normalized, and no metadata.
pub open spec fn normalized_entry(entry: (Seq<char>, Payload)) -> AttributeModel
    decreases entry,
{
    AttributeModel { key: lowercase(entry.0), value: normalized(entry.1), metadata: None }
}

/// The typed value that a payload normalizes to.
///
/// A number that is a non-negative integer of at most 64 bits becomes that
/// unsigned integer, and any other number the absent marker. A string is
/// kept as it is. A mapping becomes an attribute set with one attribute for
/// each entry, in the entries' order. Every other shape becomes the absent
/// marker.
pub open spec fn normalized(payload: Payload) -> ValueModel
    decreases payload,
{
    match payload {
        Payload::Number(number) => match number_as_u64(number) {
            Some(n) => ValueModel::Unsigned(n),
            None => ValueModel::Absent,
        },
        Payload::Text(text) => ValueModel::Text(text),
        Payload::Mapping(entries) => ValueModel::Attributes(
            Seq::new(
                entries.len(),
                |i: int|
                    if 0 <= i < entries.len() {
                        normalized_entry(entries[i])
                    } else {
                        arbitrary()
                    },
            ),
        ),
        _ => ValueModel::Absent,
    }
}

/// Normalization gives every payload a value, whatever its shape: a string
/// stays that string, a mapping becomes an attribute set, and a null, a
/// boolean or an array becomes the absent marker. No payload normalizes to a
/// timestamp.
pub proof fn lemma_every_shape_has_a_value(payload: Payload)
    ensures
        payload is Null || payload is Bool || payload is Array ==> normalized(payload)
            == ValueModel::Absent,
        payload is Number ==> normalized(payload) is Unsigned || normalized(payload)
            == ValueModel::Absent,
        payload matches Payload::Text(text) ==> normalized(payload) == ValueModel::Text(text),
        payload is Mapping <==> normalized(payload) is Attributes,
        !(normalized(payload) is Timestamp),
{
}

/// A number that is an unsigned integer of at most 64 bits normalizes to that
/// integer, and every other number to the absent marker.
pub proof fn lemma_integer_round_trip(number: serde_json::Number)
    ensures
        normalized(Payload::Number(number)) == match number_as_u64(number) {
            Some(n) => ValueModel::Unsigned(n),
            None => ValueModel::Absent,
        },
        forall|n: u64|
            number_as_u64(number) == Some(n) ==> normalized(Payload::Number(number))
                == ValueModel::Unsigned(n),
{
}

/// A mapping keeps its structure: it normalizes to an attribute set with one
/// attribute for each entry, in the entries' order, each with the entry's key
/// in lowercase, the entry's value normalized, and no metadata.
pub proof fn lemma_mapping_keeps_structure(entries: Seq<(Seq<char>, Payload)>)
    ensures
        normalized(Payload::Mapping(entries)) matches ValueModel::Attributes(attributes) && {
            &&& attributes.len() == entries.len()
            &&& forall|i: int|
                0 <= i < entries.len() ==> {
                    &&& (#[trigger] attributes[i]).key == lowercase(entries[i].0)
                    &&& attributes[i].value == normalized(entries[i].1)
                    &&& attributes[i].metadata is None
                }
        },
{
}

/// Keys count by their lowercase form alone: two mappings whose keys agree
/// in lowercase, entry by entry, and whose values normalize alike, normalize
/// to the same attribute set.
pub proof fn lemma_keys_count_in_lowercase(
    left: Seq<(Seq<char>, Payload)>,
    right: Seq<(Seq<char>, Payload)>,
)
    requires
        left.len() == right.len(),
        forall|i: int|
            0 <= i < left.len() ==> lowercase(#[trigger] left[i].0) == lowercase(right[i].0),
        forall|i: int|
            0 <= i < left.len() ==> normalized(#[trigger] left[i].1) == normalized(right[i].1),
    ensures
        normalized(Payload::Mapping(left)) == normalized(Payload::Mapping(right)),
{
    assert(normalized(Payload::Mapping(left))->Attributes_0 =~= normalized(
        Payload::Mapping(right),
    )->Attributes_0);
}

/// The payload with every key of every mapping, at every depth, replaced by
/// its lowercase form.
pub open spec fn lowercased(payload: Payload) -> Payload
    decreases payload,
{
    match payload {
        Payload::Array(items) => Payload::Array(
            Seq::new(
                items.len(),
                |i: int|
                    if 0 <= i < items.len() {
                        lowercased(items[i])
                    } else {
                        arbitrary()
                    },
            ),
        ),
        Payload::Mapping(entries) => Payload::Mapping(
            Seq::new(
                entries.len(),
                |i: int|
                    if 0 <= i < entries.len() {
                        (lowercase(entries[i].0), lowercased(entries[i].1))
                    } else {
                        arbitrary()
                    },
            ),
        ),
        other => other,
    }
}

/// Whether lowercasing has come to rest on every key that normalization
/// reads in the payload: the lowercase form of each such key is its own
/// lowercase form.
pub open spec fn keys_settle(payload: Payload) -> bool
    decreases payload,
{
    match payload {
        Payload::Mapping(entries) => forall|i: int|
            0 <= i < entries.len() ==> {
                &&& lowercase(lowercase(#[trigger] entries[i].0)) == lowercase(entries[i].0)
                &&& keys_settle(entries[i].1)
            },
        _ => true,
    }
}

/// Whether every key in the value, at every depth, is its own lowercase form.
pub open spec fn keys_in_lowercase(value: ValueModel) -> bool
    decreases value,
{
    match value {
        ValueModel::Attributes(attributes) => forall|i: int|
            0 <= i < attributes.len() ==> {
                &&& lowercase((#[trigger] attributes[i]).key) == attributes[i].key
                &&& keys_in_lowercase(attributes[i].value)
            },
        _ => true,
    }
}

/// Normalizing keys a second time changes nothing. Where lowercasing has come
/// to rest on the keys of a payload, every key of the normalized value is its
/// own lowercase form, at every depth, and the payload with all its keys
/// already in lowercase normalizes to the same value.
pub proof fn lemma_key_normalization_is_idempotent(payload: Payload)
    requires
        keys_settle(payload),
    ensures
        keys_in_lowercase(normalized(payload)),
        normalized(lowercased(payload)) == normalized(payload),
    decreases payload,
{
    if let Payload::Mapping(entries) = payload {
        let before = normalized(payload)->Attributes_0;
        let after = normalized(lowercased(payload))->Attributes_0;
        assert forall|i: int| 0 <= i < entries.len() implies {
            &&& lowercase((#[trigger] before[i]).key) == before[i].key
            &&& keys_in_lowercase(before[i].value)
            &&& after[i] == before[i]
        } by {
            assert(lowercase(lowercase(entries[i].0)) == lowercase(entries[i].0));
            lemma_key_normalization_is_idempotent(entries[i].1);
        }
        assert(after =~= before);
    }
}

/// Normalizes a payload into a typed value. Every payload has one: no shape
/// makes the normalization fail.
pub fn json_value_to_core_value(value: serde_json::Value) -> (attribute: AttributeValue)
    ensures
        attribute@ == normalized(payload_of(value)),
    decreases payload_of(value),
{
    match unfold(value) {
        Shape::Number(number) => match number.as_u64() {
            Some(n) => AttributeValue::Unsigned(n),
            None => AttributeValue::Absent,
        },
        Shape::Text(text) => AttributeValue::Text(text),
        Shape::Mapping(entries) => {
            let ghost source = entries@;
            let ghost tree = payload_of(value);
            let mut attributes = AttributeSet { entries: Vec::new() };
            for entry in iter: entries.into_iter()
                invariant
                    iter.seq() == source,
                    tree == payload_of(value),
                    tree == Payload::Mapping(
                        Seq::new(source.len(), |i: int| (source[i].0@, payload_of(source[i].1))),
                    ),
                    attributes.entries.len() == iter.index(),
                    forall|i: int|
                        0 <= i < iter.index() ==> (#[trigger] attributes.entries[i])@
                            == normalized_entry((source[i].0@, payload_of(source[i].1))),
            {
                let (key, child) = entry;
                proof {
                    let at = iter.index() as int;
                    let below = tree->Mapping_0;
                    assert(below[at] == (key@, payload_of(child)));
                    assert(decreases_to!(tree => below));
                    assert(decreases_to!(below => below[at]));
                    assert(decreases_to!(below[at] => below[at].1));
                }
                let lowered = key.to_lowercase();
                let inner = json_value_to_core_value(child);
                attributes.entries.push(Attribute { key: lowered, value: inner, metadata: None });
            }
            assert(attributes@ =~= normalized(tree)->Attributes_0);
            AttributeValue::Attributes(attributes)
        },
        _ => AttributeValue::Absent,
    }
}

} // verus!
