//! The messages of a front-end stream.

use vstd::prelude::*;

verus! {

/// A message that arrived from the caller.
#[derive(Debug, PartialEq, Eq)]
pub enum Inbound {
    /// A text unit: a payload to forward or, in a session, a command.
    Text(String),
    /// A binary unit.
    Binary(Vec<u8>),
    /// A ping.
    Ping(Vec<u8>),
    /// The caller closed the stream or went away.
    Close,
}

/// An [`Inbound`] over sequences.
pub enum InboundView {
    Text(Seq<char>),
    Binary(Seq<u8>),
    Ping(Seq<u8>),
    Close,
}

impl View for Inbound {
    type V = InboundView;

    open spec fn view(&self) -> InboundView {
        match *self {
            Inbound::Text(text) => InboundView::Text(text@),
            Inbound::Binary(bytes) => InboundView::Binary(bytes@),
            Inbound::Ping(bytes) => InboundView::Ping(bytes@),
            Inbound::Close => InboundView::Close,
        }
    }
}

/// A message for the caller.
#[derive(Debug, PartialEq, Eq)]
pub enum Outbound {
    /// A text unit.
    Text(String),
    /// A binary unit.
    Binary(Vec<u8>),
    /// The answer to a ping.
    Pong(Vec<u8>),
}

/// An [`Outbound`] over sequences.
pub enum OutboundView {
    Text(Seq<char>),
    Binary(Seq<u8>),
    Pong(Seq<u8>),
}

impl View for Outbound {
    type V = OutboundView;

    open spec fn view(&self) -> OutboundView {
        match *self {
            Outbound::Text(text) => OutboundView::Text(text@),
            Outbound::Binary(bytes) => OutboundView::Binary(bytes@),
            Outbound::Pong(bytes) => OutboundView::Pong(bytes@),
        }
    }
}

} // verus!
