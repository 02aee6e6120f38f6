//! The envelope: the two-part message unit exchanged with the backend.
//!
//! An envelope is an empty delimiter part followed by a payload part.  The
//! delimiter marks the two parts as one logical message, which lets a socket
//! that is natively asynchronous carry a paired request/reply exchange.

use vstd::prelude::*;
use crate::error::ConnectionError;

verus! {

/// Number of parts in an envelope.
pub const ENVELOPE_PARTS: usize = 2;

/// The parts of a multi-part message as sequences of bytes, in order.
pub open spec fn parts_view(parts: Vec<Vec<u8>>) -> Seq<Seq<u8>> {
    Seq::new(parts@.len(), |i: int| parts@[i]@)
}

/// The wire form of an envelope: the empty delimiter, then the payload.
pub open spec fn sealed(payload: Seq<u8>) -> Seq<Seq<u8>> {
    seq![Seq::<u8>::empty(), payload]
}

/// The payload that a received message carries.
///
/// A message of fewer than two parts is no envelope.  Otherwise the payload
/// is the second part; what the first part holds is not examined, and parts
/// after the second are dropped.
pub open spec fn opened(parts: Seq<Seq<u8>>) -> Result<Seq<u8>, ConnectionError> {
    if parts.len() < ENVELOPE_PARTS {
        Err(ConnectionError::ProtocolViolation { parts: parts.len() as usize })
    } else {
        Ok(parts[1])
    }
}

/// Frames `payload` for transmission: the delimiter part first, then the
/// payload part.
pub fn seal(payload: Vec<u8>) -> (parts: Vec<Vec<u8>>)
    ensures
        parts_view(parts) == sealed(payload@),
{
    let mut parts: Vec<Vec<u8>> = Vec::new();
    parts.push(Vec::new());
    parts.push(payload);
    parts
}

/// Takes the payload out of a received message, or reports that the message
/// is too short to be an envelope.
pub fn open(parts: Vec<Vec<u8>>) -> (r: Result<Vec<u8>, ConnectionError>)
    ensures
        match opened(parts_view(parts)) {
            Ok(payload) => r is Ok && r->Ok_0@ == payload,
            Err(e) => r == Err::<Vec<u8>, ConnectionError>(e),
        },
{
    let mut parts = parts;
    let n: usize = parts.len();
    if n < ENVELOPE_PARTS {
        Err(ConnectionError::ProtocolViolation { parts: n })
    } else {
        Ok(parts.swap_remove(1))
    }
}

/// Opening undoes sealing: whatever the payload, the message that [`seal`]
/// makes of it is an envelope, and [`open`] takes the same payload out of
/// it.
pub proof fn law_open_undoes_seal(payload: Seq<u8>)
    ensures
        opened(sealed(payload)) == Ok::<Seq<u8>, ConnectionError>(payload),
{
}

} // verus!
