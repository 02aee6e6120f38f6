//! Request/reply emulation core of a messaging gateway.
//!
//! A gateway of this kind takes requests from a conversational front end (a
//! persistent message stream, or a one-shot call) and relays them to a backend
//! messaging socket that is asynchronous and address-framed, and so knows
//! neither replies nor blocking calls.  This crate holds every decision of
//! that relay and performs no input or output itself: each bridge is a state
//! machine that hands out [`backend::Command`]s for a driver to perform on the
//! socket and takes back [`backend::Event`]s that say what the socket
//! reported.
//!
//! * [`error`]: the failures that the core reports.
//! * [`envelope`]: the two-part message unit exchanged with the backend.
//! * [`backend`]: commands, events, and the send / receive / poll primitives.
//! * [`connection`]: what the gateway records about one backend connection.
//! * [`policy`] and [`reply_wait`]: how long and how often to wait for a reply.
//! * [`text`] and [`frontend`]: the messages of a front-end stream.
//! * [`fanout`], [`session`], [`stateless`]: the three relay modes.

pub mod error;
pub mod envelope;
pub mod backend;
pub mod connection;
pub mod policy;
pub mod reply_wait;
pub mod text;
pub mod frontend;
pub mod fanout;
pub mod session;
pub mod stateless;
