//! The backend socket as the gateway core sees it.
//!
//! The core never touches a socket.  It hands a [`Command`] to its driver,
//! the driver performs it on the socket, and hands back an [`Event`] that
//! says what the socket reported.  The three primitives of the envelope
//! exchange are the readings of those reports: [`send`] with [`sent`],
//! [`try_receive`], and [`poll_ready`].

use vstd::prelude::*;
use crate::envelope::{open, opened, parts_view, seal, sealed};
use crate::error::ConnectionError;

verus! {

/// One operation on the backend socket, for the driver to perform.
#[derive(Debug, PartialEq, Eq)]
pub enum Command {
    /// Create a socket and connect it to the backend endpoint.  Answered by
    /// [`Event::Connected`].
    Connect,
    /// Send `parts` as one multi-part message, in order and without anything
    /// in between.  Answered by [`Event::Sent`].
    Transmit { parts: Vec<Vec<u8>> },
    /// Block the calling task, and only it, until the socket is readable or
    /// `timeout_ms` milliseconds have passed.  Answered by [`Event::Polled`].
    Poll { timeout_ms: u64 },
    /// Take the parts of one message off the socket without waiting.
    /// Answered by [`Event::Received`].
    Receive,
}

/// A [`Command`] over sequences of bytes.
pub enum CommandView {
    Connect,
    Transmit { parts: Seq<Seq<u8>> },
    Poll { timeout_ms: u64 },
    Receive,
}

impl View for Command {
    type V = CommandView;

    open spec fn view(&self) -> CommandView {
        match *self {
            Command::Connect => CommandView::Connect,
            Command::Transmit { parts } => CommandView::Transmit { parts: parts_view(parts) },
            Command::Poll { timeout_ms } => CommandView::Poll { timeout_ms },
            Command::Receive => CommandView::Receive,
        }
    }
}

/// What the socket reported of one [`Command`].  An `Err` holds the error
/// number that the transport gave.
#[derive(Debug, PartialEq, Eq)]
pub enum Event {
    /// The outcome of [`Command::Connect`].
    Connected(Result<(), i32>),
    /// The outcome of [`Command::Transmit`].
    Sent(Result<(), i32>),
    /// The outcome of [`Command::Poll`]: the number of sockets on which
    /// something can be read, zero when the time ran out.
    Polled(Result<i32, i32>),
    /// The outcome of [`Command::Receive`]: the parts of one message, or
    /// `None` where nothing was there to be read.
    Received(Result<Option<Vec<Vec<u8>>>, i32>),
}

/// An [`Event`] over sequences of bytes.
pub enum EventView {
    Connected(Result<(), i32>),
    Sent(Result<(), i32>),
    Polled(Result<i32, i32>),
    Received(Result<Option<Seq<Seq<u8>>>, i32>),
}

/// The report of a receive over sequences of bytes.
pub open spec fn received_view(report: Result<Option<Vec<Vec<u8>>>, i32>) -> Result<
    Option<Seq<Seq<u8>>>,
    i32,
> {
    match report {
        Ok(Some(parts)) => Ok(Some(parts_view(parts))),
        Ok(None) => Ok(None),
        Err(code) => Err(code),
    }
}

impl View for Event {
    type V = EventView;

    open spec fn view(&self) -> EventView {
        match *self {
            Event::Connected(report) => EventView::Connected(report),
            Event::Sent(report) => EventView::Sent(report),
            Event::Polled(report) => EventView::Polled(report),
            Event::Received(report) => EventView::Received(received_view(report)),
        }
    }
}

/// A reply as a sequence of bytes: the view of what the receive primitives
/// return.
pub open spec fn reply_view(reply: Result<Option<Vec<u8>>, ConnectionError>) -> Result<
    Option<Seq<u8>>,
    ConnectionError,
> {
    match reply {
        Ok(Some(payload)) => Ok(Some(payload@)),
        Ok(None) => Ok(None),
        Err(e) => Err(e),
    }
}

/// The command that sends `payload`: one transmission of the delimiter part
/// and then the payload part.
pub fn send(payload: Vec<u8>) -> (command: Command)
    ensures
        command@ == (CommandView::Transmit { parts: sealed(payload@) }),
{
    Command::Transmit { parts: seal(payload) }
}

/// What a transmission came to.
pub open spec fn sent_spec(report: Result<(), i32>) -> Result<(), ConnectionError> {
    match report {
        Ok(_) => Ok(()),
        Err(code) => Err(ConnectionError::Socket { code }),
    }
}

/// Reads the report of a transmission: a send that the socket rejected is a
/// connection error.  Nothing is retried here; whether to try again is for
/// the caller to decide.
pub fn sent(report: Result<(), i32>) -> (r: Result<(), ConnectionError>)
    ensures
        r == sent_spec(report),
{
    match report {
        Ok(_) => Ok(()),
        Err(code) => Err(ConnectionError::Socket { code }),
    }
}

/// Whether a readiness wait found data.
pub open spec fn poll_ready_spec(report: Result<i32, i32>) -> Result<bool, ConnectionError> {
    match report {
        Ok(signalled) => Ok(signalled != 0),
        Err(code) => Err(ConnectionError::Socket { code }),
    }
}

/// Reads the report of a readiness wait: data became readable exactly when
/// the socket signalled something.
pub fn poll_ready(report: Result<i32, i32>) -> (r: Result<bool, ConnectionError>)
    ensures
        r == poll_ready_spec(report),
{
    match report {
        Ok(signalled) => Ok(signalled != 0),
        Err(code) => Err(ConnectionError::Socket { code }),
    }
}

/// The reply that a receive yields.
pub open spec fn try_receive_spec(report: Result<Option<Seq<Seq<u8>>>, i32>) -> Result<
    Option<Seq<u8>>,
    ConnectionError,
> {
    match report {
        Ok(None) => Ok(None),
        Ok(Some(parts)) => match opened(parts) {
            Ok(payload) => Ok(Some(payload)),
            Err(e) => Err(e),
        },
        Err(code) => Err(ConnectionError::Socket { code }),
    }
}

/// Reads the report of a receive.  Where nothing was there to be read the
/// answer is "no data"; where a message was read, its payload; a message that
/// is no envelope, or a socket error, is a connection error.
pub fn try_receive(report: Result<Option<Vec<Vec<u8>>>, i32>) -> (r: Result<
    Option<Vec<u8>>,
    ConnectionError,
>)
    ensures
        reply_view(r) == try_receive_spec(received_view(report)),
{
    match report {
        Ok(None) => Ok(None),
        Ok(Some(parts)) => match open(parts) {
            Ok(payload) => Ok(Some(payload)),
            Err(e) => Err(e),
        },
        Err(code) => Err(ConnectionError::Socket { code }),
    }
}

} // verus!
