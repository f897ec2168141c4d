//! The consume-path data: one delivered record, and the pull-based message
//! sequence that interprets what the native poll call hands back.

use vstd::prelude::*;
use vstd::string::StringSliceAdditionalSpecFns;
use vstd::utf8::{valid_utf8, decode_utf8};
use crate::get_error_str;

verus! {

/// An immutable snapshot of one delivered record, fully owned by this side of
/// the native boundary.
#[derive(Debug, Clone, PartialEq, Eq)]
pub struct Message {
    /// Raw byte payload, copied out of the native buffer.
    pub payload: Vec<u8>,
    /// Partition the record was read from.
    pub partition: i32,
    /// Broker-assigned offset, monotonically increasing per partition.
    pub offset: i64,
}

/// A record-level failure surfaced through the message sequence.
#[derive(Debug, Clone, PartialEq, Eq)]
pub enum MessageError {
    /// A native status translated to its description.
    KafkaError(String),
}

/// Declares `core::str::Utf8Error`, the failure of a UTF-8 decode, so it can
/// stand in signatures; it is carried through opaquely.
#[verifier::external_type_specification]
#[verifier::external_body]
pub struct ExUtf8Error(core::str::Utf8Error);

/// Relies on `core::str::from_utf8`: it succeeds exactly on valid UTF-8 and
/// the returned string borrows those same bytes, read as their decoding.
#[verifier::external_body]
fn utf8_from_bytes(bytes: &[u8]) -> (r: Result<&str, core::str::Utf8Error>)
    ensures
        r is Ok <==> valid_utf8(bytes@),
        r matches Ok(s) ==> s.spec_bytes() == bytes@ && s@ == decode_utf8(bytes@),
{
    core::str::from_utf8(bytes)
}

impl Message {
    /// Reads the payload as text: succeeds exactly when the payload is valid
    /// UTF-8, and then returns its decoding.
    pub fn read(&self) -> (r: Result<&str, core::str::Utf8Error>)
        ensures
            r is Ok <==> valid_utf8(self.payload@),
            r matches Ok(s) ==> s@ == decode_utf8(self.payload@),
    {
        utf8_from_bytes(self.payload.as_slice())
    }
}

/// Everything one native poll call hands back for a non-null result: the
/// native buffer's handle (which must be released), the record-level status
/// with its resolved description, and the copied-out record fields.
#[derive(Debug, Clone, PartialEq, Eq)]
pub struct PollRecord {
    /// Id of the native message buffer; its owner must destroy it exactly once.
    pub handle: u64,
    /// Record-level native status code; zero means a well-delivered record.
    pub err_code: i32,
    /// Description the native engine resolved for `err_code`.
    pub err_text: String,
    /// Payload bytes copied out of the native buffer.
    pub payload: Vec<u8>,
    /// Partition the record was read from.
    pub partition: i32,
    /// Broker-assigned offset of the record.
    pub offset: i64,
}

/// The outcome of one step of the message sequence: what to yield to the
/// caller, and which native buffer must now be released.
#[derive(Debug, Clone, PartialEq, Eq)]
pub struct PollStep {
    /// `None` when the poll window elapsed with no record; otherwise the
    /// success/error-tagged record.
    pub item: Option<Result<Message, MessageError>>,
    /// The native buffer to destroy now, present for every non-null poll
    /// result, whether or not decoding succeeded.
    pub release: Option<u64>,
}

/// A pull-based, infinite-length sequence of inbound records: each step polls
/// the native engine for up to the configured timeout and yields at most one
/// record.
#[derive(Debug, Clone, PartialEq, Eq)]
pub struct Messages {
    /// Id of the native client handle the sequence polls.
    pub rk: u64,
    /// Upper bound, in milliseconds, on how long one step may block.
    pub poll_timeout_ms: i32,
}

impl Messages {
    /// A fresh sequence over the given client handle and per-step timeout.
    pub fn new(rk: u64, poll_timeout_ms: i32) -> (r: Messages)
        ensures
            r == (Messages { rk, poll_timeout_ms }),
    {
        Messages { rk, poll_timeout_ms }
    }

    /// One step of the sequence, interpreting what the native poll returned.
    ///
    /// A null poll result yields nothing and releases nothing.  A non-null
    /// result is always released, and yields the decoded record when its
    /// status is clean, else the translated record-level error.
    pub fn next(&self, polled: Option<PollRecord>) -> (r: PollStep)
        ensures
            polled is None ==> r == (PollStep { item: None, release: None }),
            polled matches Some(rec) ==> {
                &&& r.release == Some(rec.handle)
                &&& rec.err_code == 0 ==> r.item == Some(
                    Ok::<Message, MessageError>(
                        Message {
                            payload: rec.payload,
                            partition: rec.partition,
                            offset: rec.offset,
                        },
                    ),
                )
                &&& rec.err_code != 0 ==> r.item == Some(
                    Err::<Message, MessageError>(MessageError::KafkaError(rec.err_text)),
                )
            },
    {
        match polled {
            None => PollStep { item: None, release: None },
            Some(rec) => {
                let item = match get_error_str(rec.err_code, rec.err_text) {
                    Some(text) => Some(Err(MessageError::KafkaError(text))),
                    None => Some(
                        Ok(
                            Message {
                                payload: rec.payload,
                                partition: rec.partition,
                                offset: rec.offset,
                            },
                        ),
                    ),
                };
                PollStep { item, release: Some(rec.handle) }
            },
        }
    }
}

} // verus!
