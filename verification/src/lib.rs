//! Ingestion of Windows event-log containers into a tree of attributed nodes.

pub mod container;
pub mod decimal;
pub mod normalize;
pub mod payload;
pub mod plugin;
pub mod record;
pub mod value;

pub use crate::container::{Attempt, Container};
pub use crate::normalize::json_value_to_core_value;
pub use crate::plugin::{EvtxPlugin, IngestError, Results};
pub use crate::record::{attach_records, record_node, Node, Record};
pub use crate::value::{Attribute, AttributeSet, AttributeValue, Timestamp};
