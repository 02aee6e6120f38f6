//! The failures that the gateway core reports.

use vstd::prelude::*;

verus! {

/// The backend could not be reached or did not keep to the envelope framing.
///
/// Both variants are infrastructure faults and every bridge treats them
/// alike; they are kept apart so that a log line can tell them apart.
#[derive(Clone, Copy, Debug, PartialEq, Eq, Structural)]
pub enum ConnectionError {
    /// The backend socket could not be created, connected or used.  `code`
    /// is the error number that the transport gave.
    Socket { code: i32 },
    /// A backend message had fewer parts than an envelope needs.  `parts`
    /// is the number of parts that did arrive.
    ProtocolViolation { parts: usize },
}

/// Reply bytes that should have been text are not valid UTF-8.
#[derive(Clone, Copy, Debug, PartialEq, Eq, Structural)]
pub struct EncodingError {}

} // verus!
