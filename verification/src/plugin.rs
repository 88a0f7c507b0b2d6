//! The ingestion itself: from the bytes of a container, and from what the
//! decoder reads in it, to the children of a node.

use vstd::prelude::*;
use crate::container::{describe, error_text, open, opened, Attempt, Container};
use crate::record::{attach_records, nodes_of, Node};

verus! {

/// Why an ingestion failed as a whole.
#[derive(Debug, PartialEq, Eq)]
pub enum IngestError {
    /// The bytes could not be opened as a container. Carries the decoder's
    /// own message.
    ContainerOpenFailed(String),
}

impl IngestError {
    /// The message of the error.
    pub fn message(&self) -> (text: String)
        ensures
            text@ == self->ContainerOpenFailed_0@,
    {
        match self {
            IngestError::ContainerOpenFailed(message) => message.clone(),
        }
    }
}

/// What a finished ingestion reports.
#[derive(Debug, PartialEq, Eq)]
pub struct Results {}

impl Default for Results {
    fn default() -> (results: Results)
        ensures
            results == (Results {  }),
    {
        Results {  }
    }
}

/// The ingestion of event-log containers.
#[derive(Debug, PartialEq, Eq)]
pub struct EvtxPlugin {}

impl Default for EvtxPlugin {
    fn default() -> (plugin: EvtxPlugin)
        ensures
            plugin == (EvtxPlugin {  }),
    {
        EvtxPlugin {  }
    }
}

impl EvtxPlugin {
    /// The name of the ingestion, which is also the key under which a
    /// record's value is attached to its node.
    pub fn name(&self) -> (name: String)
        ensures
            name@ == crate::record::record_key(),
    {
        String::from_str("evtx")
    }

    /// Opens `data` as a container, the first step of an ingestion. Bytes
    /// that the decoder does not take for a container fail the ingestion as
    /// a whole, with the decoder's own message.
    pub fn open(&self, data: Vec<u8>) -> (outcome: Result<Container, IngestError>)
        ensures
            match opened(data@) {
                Ok(container) => outcome == Ok::<Container, IngestError>(container),
                Err(error) => {
                    &&& outcome matches Err(IngestError::ContainerOpenFailed(message))
                    &&& message@ == error_text(error)
                },
            },
    {
        match open(data) {
            Ok(container) => Ok(container),
            Err(error) => Err(IngestError::ContainerOpenFailed(describe(&error))),
        }
    }

    /// Finishes an ingestion from what became of the container: the error
    /// where it did not open, the decoder's attempts at its records where it
    /// did.
    ///
    /// A container that did not open fails the ingestion with that error and
    /// leaves `children` as they were. One that opened never fails it: every
    /// record that was read becomes one more child, in the decoder's order,
    /// and an attempt that failed leaves no trace.
    pub fn run(
        &mut self,
        decoded: Result<Vec<Attempt>, IngestError>,
        children: &mut Vec<Node>,
    ) -> (outcome: Result<Results, IngestError>)
        ensures
            match decoded {
                Ok(attempts) => {
                    &&& outcome == Ok::<Results, IngestError>(Results {  })
                    &&& final(children).deep_view() == old(children).deep_view() + nodes_of(
                        attempts@,
                    )
                },
                Err(error) => {
                    &&& outcome == Err::<Results, IngestError>(error)
                    &&& *final(children) == *old(children)
                },
            },
    {
        match decoded {
            Ok(attempts) => {
                attach_records(attempts, children);
                Ok(Results {  })
            },
            Err(error) => Err(error),
        }
    }
}

} // verus!
