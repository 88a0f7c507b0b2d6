//! The typed values that ingestion attaches to nodes.

use vstd::prelude::*;

verus! {

/// A point in time, as whole seconds since 1970-01-01T00:00:00Z and the
/// nanoseconds into that second.
#[derive(Debug, Clone, Copy, PartialEq, Eq)]
pub struct Timestamp {
    pub seconds: i64,
    pub nanoseconds: u32,
}

/// A typed value.
#[derive(Debug, PartialEq, Eq)]
pub enum AttributeValue {
    /// An unsigned integer.
    Unsigned(u64),
    /// A string.
    Text(String),
    /// A nested attribute set.
    Attributes(AttributeSet),
    /// A point in time.
    Timestamp(Timestamp),
    /// The marker for a value that is absent.
    Absent,
}

/// One entry of an attribute set.
#[derive(Debug, PartialEq, Eq)]
pub struct Attribute {
    pub key: String,
    pub value: AttributeValue,
    pub metadata: Option<String>,
}

/// An ordered collection of attributes. Entries stay in the order in which
/// they were added, and an entry whose key is already present is kept beside
/// the earlier one.
#[derive(Debug, PartialEq, Eq)]
pub struct AttributeSet {
    pub entries: Vec<Attribute>,
}

/// The mathematical form of an [`AttributeValue`].
pub enum ValueModel {
    Unsigned(u64),
    Text(Seq<char>),
    Attributes(Seq<AttributeModel>),
    Timestamp(Timestamp),
    Absent,
}

/// The mathematical form of an [`Attribute`].
pub struct AttributeModel {
    pub key: Seq<char>,
    pub value: ValueModel,
    pub metadata: Option<Seq<char>>,
}

impl View for AttributeValue {
    type V = ValueModel;

    open spec fn view(&self) -> ValueModel
        decreases self,
    {
        match self {
            AttributeValue::Unsigned(number) => ValueModel::Unsigned(*number),
            AttributeValue::Text(text) => ValueModel::Text(text@),
            AttributeValue::Attributes(set) => ValueModel::Attributes(set@),
            AttributeValue::Timestamp(time) => ValueModel::Timestamp(*time),
            AttributeValue::Absent => ValueModel::Absent,
        }
    }
}

impl View for Attribute {
    type V = AttributeModel;

    open spec fn view(&self) -> AttributeModel
        decreases self,
    {
        AttributeModel {
            key: self.key@,
            value: self.value@,
            metadata: text_model(self.metadata),
        }
    }
}

impl View for AttributeSet {
    type V = Seq<AttributeModel>;

    open spec fn view(&self) -> Seq<AttributeModel>
        decreases self,
    {
        Seq::new(
            self.entries.len() as nat,
            |i: int|
                if 0 <= i < self.entries.len() {
                    self.entries[i]@
                } else {
                    arbitrary()
                },
        )
    }
}

impl AttributeSet {
    /// An attribute set without entries.
    pub fn new() -> (set: AttributeSet)
        ensures
            set@ == Seq::<AttributeModel>::empty(),
    {
        let set = AttributeSet { entries: Vec::new() };
        assert(set@ =~= Seq::<AttributeModel>::empty());
        set
    }

    /// Adds one attribute behind those that the set holds already.
    pub fn add_attribute(&mut self, key: String, value: AttributeValue, metadata: Option<String>)
        ensures
            final(self)@ == old(self)@.push(
                AttributeModel { key: key@, value: value@, metadata: text_model(metadata) },
            ),
    {
        let ghost added = Attribute { key, value, metadata }@;
        self.entries.push(Attribute { key, value, metadata });
        assert(self@ =~= old(self)@.push(added));
    }
}

/// The characters of an optional text.
pub open spec fn text_model(text: Option<String>) -> Option<Seq<char>> {
    match text {
        Some(text) => Some(text@),
        None => None,
    }
}

} // verus!
