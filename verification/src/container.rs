//! The event-log container, as the `evtx` decoder reads it.

use vstd::prelude::*;
use crate::record::Record;

verus! {

/// `evtx::err::EvtxError`: what the decoder reports when it cannot read a
/// container, a chunk or a record.
#[verifier::external_type_specification]
#[verifier::external_body]
pub struct ExEvtxError(evtx::err::EvtxError);

/// An opened container: the decoder's parser over the container's bytes, an
/// `evtx::EvtxParser<std::io::Cursor<Vec<u8>>>`, whose type has a bound that
/// cannot be named from outside the decoder. The parser is open to the
/// caller, who runs the decoder over it: on a malformed chunk the decoder can
/// stop with a panic or never come back, which no function of this library
/// may do, so none of them makes that call.
#[verifier::external_body]
pub struct Container {
    pub parser: evtx::EvtxParser<std::io::Cursor<Vec<u8>>>,
}

/// One attempt of the decoder at a record: the record, or the reason why it
/// could not be read.
pub type Attempt = Result<Record, evtx::err::EvtxError>;

/// What `evtx::EvtxParser::from_buffer` returns for the given bytes.
pub uninterp spec fn opened(bytes: Seq<u8>) -> Result<Container, evtx::err::EvtxError>;

/// What the `Display` form of a decoder error reads.
pub uninterp spec fn error_text(error: evtx::err::EvtxError) -> Seq<char>;

/// `evtx::EvtxParser::from_buffer`: reads the container's header from the
/// bytes and fails where it is not one. Claimed: the outcome depends on the
/// bytes alone.
#[verifier::external_body]
pub(crate) fn open(bytes: Vec<u8>) -> (outcome: Result<Container, evtx::err::EvtxError>)
    ensures
        outcome == opened(bytes@),
{
    match evtx::EvtxParser::from_buffer(bytes) {
        Ok(parser) => Ok(Container { parser }),
        Err(error) => Err(error),
    }
}

/// The `Display` form of a decoder error, through `to_string`. Claimed: the
/// text depends on the error alone.
#[verifier::external_body]
pub(crate) fn describe(error: &evtx::err::EvtxError) -> (text: String)
    ensures
        text@ == error_text(*error),
{
    error.to_string()
}

} // verus!
