//! Records of a container, and the nodes that they become.

use vstd::prelude::*;
use crate::container::Attempt;
use crate::decimal::{decimal, decimal_string};
use crate::normalize::{json_value_to_core_value, normalized};
use crate::payload::{payload_of, Payload};
use crate::value::{AttributeModel, AttributeSet, AttributeValue, Timestamp, ValueModel};

verus! {

/// One decoded entry of an event log.
#[derive(Debug, PartialEq)]
pub struct Record {
    pub record_id: u64,
    pub timestamp: Timestamp,
    pub payload: serde_json::Value,
}

/// The mathematical form of a [`Record`].
pub struct RecordModel {
    pub record_id: u64,
    pub timestamp: Timestamp,
    pub payload: Payload,
}

impl View for Record {
    type V = RecordModel;

    open spec fn view(&self) -> RecordModel {
        RecordModel {
            record_id: self.record_id,
            timestamp: self.timestamp,
            payload: payload_of(self.payload),
        }
    }
}

/// A node of the tree before it has a place there: its name and the
/// attributes attached to it.
#[derive(Debug, PartialEq, Eq)]
pub struct Node {
    pub name: String,
    pub attributes: AttributeSet,
}

/// The mathematical form of a [`Node`].
pub struct NodeModel {
    pub name: Seq<char>,
    pub attributes: Seq<AttributeModel>,
}

impl View for Node {
    type V = NodeModel;

    open spec fn view(&self) -> NodeModel {
        NodeModel { name: self.name@, attributes: self.attributes@ }
    }
}

impl DeepView for Node {
    type V = NodeModel;

    open spec fn deep_view(&self) -> NodeModel {
        self@
    }
}

impl Node {
    /// A node with the given name and no attributes.
    pub fn new(name: String) -> (node: Node)
        ensures
            node@ == (NodeModel { name: name@, attributes: Seq::empty() }),
    {
        Node { name, attributes: AttributeSet::new() }
    }

    /// Attaches one attribute to the node, behind those it has already.
    pub fn add_attribute(&mut self, key: String, value: AttributeValue, metadata: Option<String>)
        ensures
            final(self)@ == (NodeModel {
                name: old(self)@.name,
                attributes: old(self)@.attributes.push(
                    AttributeModel {
                        key: key@,
                        value: value@,
                        metadata: crate::value::text_model(metadata),
                    },
                ),
            }),
    {
        self.attributes.add_attribute(key, value, metadata);
    }
}

/// The key under which a record's value is attached to its node.
pub open spec fn record_key() -> Seq<char> {
    "evtx"@
}

/// The key under which a record's timestamp sits inside its value.
pub open spec fn time_key() -> Seq<char> {
    "time"@
}

/// The value attached to the node of a record with the given payload and
/// timestamp. Where the payload normalizes to an attribute set, the value is
/// that set with the timestamp as one more entry behind the payload's own.
/// Any other normalized value has no entries for the timestamp to sit beside,
/// and is attached as it is.
pub open spec fn record_value(payload: Payload, timestamp: Timestamp) -> ValueModel {
    match normalized(payload) {
        ValueModel::Attributes(entries) => ValueModel::Attributes(
            entries.push(
                AttributeModel {
                    key: time_key(),
                    value: ValueModel::Timestamp(timestamp),
                    metadata: None,
                },
            ),
        ),
        other => other,
    }
}

/// The node of a record: named by the record's id in decimal notation, with
/// the record's value as its only attribute.
pub open spec fn node_of(record: RecordModel) -> NodeModel {
    NodeModel {
        name: decimal(record.record_id as nat),
        attributes: seq![
            AttributeModel {
                key: record_key(),
                value: record_value(record.payload, record.timestamp),
                metadata: None,
            },
        ],
    }
}

/// The node of a record is named by the record's id in decimal notation and
/// has one attribute, under the record key. Where the payload is a mapping,
/// that attribute's value holds the payload's normalized entries and, behind
/// them, the record's timestamp under the time key.
pub proof fn lemma_node_name_and_time(record: RecordModel)
    ensures
        node_of(record).name == decimal(record.record_id as nat),
        node_of(record).attributes.len() == 1,
        node_of(record).attributes[0].key == record_key(),
        node_of(record).attributes[0].metadata is None,
        record.payload matches Payload::Mapping(entries) ==> {
            &&& node_of(record).attributes[0].value matches ValueModel::Attributes(attributes)
            &&& attributes.len() == entries.len() + 1
            &&& attributes.take(entries.len() as int) == normalized(
                record.payload,
            )->Attributes_0
            &&& attributes[entries.len() as int] == (AttributeModel {
                key: time_key(),
                value: ValueModel::Timestamp(record.timestamp),
                metadata: None,
            })
        },
        !(record.payload is Mapping) ==> node_of(record).attributes[0].value == normalized(
            record.payload,
        ),
{
    if let Payload::Mapping(entries) = record.payload {
        let attributes = node_of(record).attributes[0].value->Attributes_0;
        assert(attributes.take(entries.len() as int) =~= normalized(
            record.payload,
        )->Attributes_0);
    }
}

/// Builds the node of one decoded record.
pub fn record_node(record: Record) -> (node: Node)
    ensures
        node@ == node_of(record@),
{
    let Record { record_id, timestamp, payload } = record;
    let mut node = Node::new(decimal_string(record_id));
    let attribute = match json_value_to_core_value(payload) {
        AttributeValue::Attributes(mut entries) => {
            entries.add_attribute(
                String::from_str("time"),
                AttributeValue::Timestamp(timestamp),
                None,
            );
            AttributeValue::Attributes(entries)
        },
        other => other,
    };
    node.add_attribute(String::from_str("evtx"), attribute, None);
    assert(node@.attributes =~= node_of(record@).attributes);
    node
}

/// The nodes that a run of attempts leaves behind: one for each record that
/// was read, in the attempts' order, and none for an attempt that failed.
pub open spec fn nodes_of(attempts: Seq<Attempt>) -> Seq<NodeModel> {
    attempts.filter(|attempt: Attempt| attempt is Ok).map_values(
        |attempt: Attempt| node_of(attempt->Ok_0@),
    )
}

/// The nodes of a run of attempts that is extended by one more attempt.
pub proof fn lemma_nodes_of_push(attempts: Seq<Attempt>, next: Attempt)
    ensures
        nodes_of(attempts.push(next)) == match next {
            Ok(record) => nodes_of(attempts).push(node_of(record@)),
            Err(_) => nodes_of(attempts),
        },
{
    reveal(Seq::filter);
    let readable = |attempt: Attempt| attempt is Ok;
    assert(attempts.push(next).drop_last() =~= attempts);
    assert(attempts.push(next).filter(readable) == if next is Ok {
        attempts.filter(readable).push(next)
    } else {
        attempts.filter(readable)
    });
    match next {
        Ok(record) => {
            assert(nodes_of(attempts.push(next)) =~= nodes_of(attempts).push(node_of(record@)));
        },
        Err(_) => {},
    }
}

/// The nodes of two runs of attempts, one behind the other.
pub proof fn lemma_nodes_of_concat(first: Seq<Attempt>, second: Seq<Attempt>)
    ensures
        nodes_of(first + second) == nodes_of(first) + nodes_of(second),
    decreases second.len(),
{
    if second.len() == 0 {
        reveal(Seq::filter);
        assert(first + second =~= first);
        assert(nodes_of(second) =~= Seq::<NodeModel>::empty());
        assert(nodes_of(first) + nodes_of(second) =~= nodes_of(first));
    } else {
        let shorter = second.drop_last();
        lemma_nodes_of_concat(first, shorter);
        lemma_nodes_of_push(first + shorter, second.last());
        lemma_nodes_of_push(shorter, second.last());
        assert((first + shorter).push(second.last()) =~= first + second);
        assert(shorter.push(second.last()) =~= second);
        match second.last() {
            Ok(record) => {
                assert((nodes_of(first) + nodes_of(shorter)).push(node_of(record@)) =~= nodes_of(
                    first,
                ) + nodes_of(shorter).push(node_of(record@)));
            },
            Err(_) => {},
        }
    }
}

/// Records are isolated from one another: an attempt that failed, wherever
/// it stands among the others, changes nothing about the nodes of the rest.
pub proof fn lemma_failed_attempt_leaves_no_trace(
    before: Seq<Attempt>,
    failed: Attempt,
    after: Seq<Attempt>,
)
    requires
        failed is Err,
    ensures
        nodes_of(before.push(failed) + after) == nodes_of(before + after),
{
    lemma_nodes_of_push(before, failed);
    lemma_nodes_of_concat(before.push(failed), after);
    lemma_nodes_of_concat(before, after);
}

/// Where every attempt succeeded, there is exactly one node for each record,
/// in the records' order.
pub proof fn lemma_one_node_for_each_record(attempts: Seq<Attempt>)
    requires
        forall|i: int| 0 <= i < attempts.len() ==> (#[trigger] attempts[i]) is Ok,
    ensures
        nodes_of(attempts).len() == attempts.len(),
        forall|i: int|
            0 <= i < attempts.len() ==> (#[trigger] nodes_of(attempts)[i]) == node_of(
                attempts[i]->Ok_0@,
            ),
    decreases attempts.len(),
{
    if attempts.len() == 0 {
        reveal(Seq::filter);
    } else {
        let shorter = attempts.drop_last();
        lemma_one_node_for_each_record(shorter);
        lemma_nodes_of_push(shorter, attempts.last());
        assert(shorter.push(attempts.last()) =~= attempts);
    }
}

/// There are never more nodes than attempts, and as many as there are
/// attempts that succeeded.
pub proof fn lemma_node_count(attempts: Seq<Attempt>)
    ensures
        nodes_of(attempts).len() == attempts.filter(|attempt: Attempt| attempt is Ok).len(),
        nodes_of(attempts).len() <= attempts.len(),
{
    attempts.lemma_filter_len(|attempt: Attempt| attempt is Ok);
}

/// Appends the node of every record that was read to `children`, in the
/// attempts' order, and passes over every attempt that failed.
pub fn attach_records(attempts: Vec<Attempt>, children: &mut Vec<Node>)
    ensures
        final(children).deep_view() == old(children).deep_view() + nodes_of(attempts@),
{
    let ghost source = attempts@;
    let ghost before = children.deep_view();
    proof {
        reveal(Seq::filter);
        assert(nodes_of(source.take(0)) =~= Seq::<NodeModel>::empty());
        assert(children.deep_view() =~= before + nodes_of(source.take(0)));
    }
    for attempt in iter: attempts.into_iter()
        invariant
            iter.seq() == source,
            children.deep_view() == before + nodes_of(source.take(iter.index() as int)),
    {
        proof {
            let at = iter.index() as int;
            assert(source.take(at + 1) =~= source.take(at).push(attempt));
            lemma_nodes_of_push(source.take(at), attempt);
        }
        let ghost earlier = children.deep_view();
        match attempt {
            Ok(record) => {
                let node = record_node(record);
                children.push(node);
                assert(children.deep_view() =~= earlier.push(node@));
            },
            Err(_) => {},
        }
        assert(children.deep_view() =~= before + nodes_of(source.take(iter.index() + 1)));
    }
    assert(source.take(source.len() as int) =~= source);
}

} // verus!
