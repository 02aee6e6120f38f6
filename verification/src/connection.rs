//! What the gateway records about one backend connection.
//!
//! The socket itself stays with the driver.  The core keeps the two facts on
//! which its decisions rest: whether the connection is live, and whether a
//! request has gone out on it whose reply has not come back.  A connection
//! belongs to one session or one call for its whole life and carries at most
//! one such request at a time.

use vstd::prelude::*;

verus! {

/// Whether a request is waiting for its reply.
#[derive(Clone, Copy, Debug, PartialEq, Eq, Structural)]
pub enum Pending {
    /// Nothing is outstanding.
    Idle,
    /// A request was sent and its reply has not been received.
    AwaitingReply,
}

/// The record of one backend connection.
#[derive(Clone, Copy, Debug, PartialEq, Eq, Structural)]
pub struct Connection {
    /// Whether a connected socket stands behind this record.
    pub live: bool,
    /// Whether a request is waiting for its reply.
    pub pending: Pending,
}

impl Connection {
    /// The record of no connection: not live, nothing outstanding.
    pub open spec fn absent() -> Connection {
        Connection { live: false, pending: Pending::Idle }
    }

    /// The record of a connection that has just been established.
    pub open spec fn established() -> Connection {
        Connection { live: true, pending: Pending::Idle }
    }

    /// The record after a request went out.
    pub open spec fn after_send(self) -> Connection {
        Connection { pending: Pending::AwaitingReply, ..self }
    }

    /// The record after the outstanding request was resolved, by its reply or
    /// by a wait that ran out.
    pub open spec fn after_resolution(self) -> Connection {
        Connection { pending: Pending::Idle, ..self }
    }

    /// Whether a request may go out without a reply still being owed: the
    /// connection is live and nothing is outstanding.
    pub open spec fn may_send(self) -> bool {
        self.live && self.pending == Pending::Idle
    }

    /// The record to start from, before any connection exists.
    pub fn none() -> (c: Connection)
        ensures
            c == Connection::absent(),
    {
        Connection { live: false, pending: Pending::Idle }
    }

    /// The record of a connection that has just been established.
    pub fn open() -> (c: Connection)
        ensures
            c == Connection::established(),
    {
        Connection { live: true, pending: Pending::Idle }
    }

    /// Records that a request went out.
    pub fn request_sent(&mut self)
        ensures
            *final(self) == old(self).after_send(),
    {
        self.pending = Pending::AwaitingReply;
    }

    /// Records that the outstanding request was resolved.
    pub fn request_resolved(&mut self)
        ensures
            *final(self) == old(self).after_resolution(),
    {
        self.pending = Pending::Idle;
    }

    /// Records that the connection was given up.  A request that was still
    /// outstanding is abandoned with it.
    pub fn close(&mut self)
        ensures
            *final(self) == Connection::absent(),
    {
        self.live = false;
        self.pending = Pending::Idle;
    }

    /// Whether a request may go out without a reply still being owed.
    pub fn can_send(&self) -> (b: bool)
        ensures
            b == self.may_send(),
    {
        self.live && matches!(self.pending, Pending::Idle)
    }
}

} // verus!
