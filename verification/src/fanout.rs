//! The fan-out relay: forward to the broadcast channel, echo to the caller.
//!
//! Every text unit of the caller is published on the broadcast channel and
//! echoed back as an acknowledgment.  The channel gives no replies, so
//! nothing needs to be matched.  A failed publish is noted for the log and
//! changes nothing for the caller.

use vstd::prelude::*;
use vstd::string::StrSliceExecFns;
use vstd::utf8::encode_utf8;
use crate::backend::{sent, sent_spec};
use crate::error::ConnectionError;
use crate::frontend::{Inbound, InboundView, Outbound, OutboundView};

verus! {

/// Where a relay stands.
#[derive(Clone, Copy, Debug, PartialEq, Eq, Structural)]
pub enum RelayPhase {
    Open,
    Closed,
}

/// One fan-out relay, for the life of a front-end stream.
#[derive(Clone, Copy, Debug, PartialEq, Eq, Structural)]
pub struct FanOut {
    pub phase: RelayPhase,
}

/// What a relay is told.
#[derive(Debug, PartialEq, Eq)]
pub enum FanOutInput {
    /// A message arrived from the caller.
    Front(Inbound),
    /// The broadcast channel reported the outcome of a publish.
    Published(Result<(), i32>),
}

/// A [`FanOutInput`] over sequences.
pub enum FanOutInputView {
    Front(InboundView),
    Published(Result<(), i32>),
}

impl View for FanOutInput {
    type V = FanOutInputView;

    open spec fn view(&self) -> FanOutInputView {
        match *self {
            FanOutInput::Front(message) => FanOutInputView::Front(message@),
            FanOutInput::Published(report) => FanOutInputView::Published(report),
        }
    }
}

/// What a relay asks of its driver: first to publish, then to reply.
#[derive(Debug, PartialEq, Eq)]
pub struct FanOutOutput {
    /// Bytes to publish on the broadcast channel as one message, without
    /// waiting for anything.  The outcome is reported as
    /// [`FanOutInput::Published`].
    pub publish: Option<Vec<u8>>,
    /// A message to send to the caller.
    pub reply: Option<Outbound>,
    /// A failure that the relay kept from the caller, for the log.
    pub swallowed: Option<ConnectionError>,
}

/// A [`FanOutOutput`] over sequences.
pub struct FanOutOutputView {
    pub publish: Option<Seq<u8>>,
    pub reply: Option<OutboundView>,
    pub swallowed: Option<ConnectionError>,
}

impl View for FanOutOutput {
    type V = FanOutOutputView;

    open spec fn view(&self) -> FanOutOutputView {
        FanOutOutputView {
            publish: match self.publish {
                Some(bytes) => Some(bytes@),
                None => None,
            },
            reply: match self.reply {
                Some(message) => Some(message@),
                None => None,
            },
            swallowed: self.swallowed,
        }
    }
}

impl FanOutOutputView {
    /// Nothing to do.
    pub open spec fn nothing() -> FanOutOutputView {
        FanOutOutputView { publish: None, reply: None, swallowed: None }
    }

    /// Only a message for the caller.
    pub open spec fn only_reply(message: OutboundView) -> FanOutOutputView {
        FanOutOutputView { publish: None, reply: Some(message), swallowed: None }
    }
}

impl FanOut {
    /// The relay of a stream that has just been opened.
    pub open spec fn opened() -> FanOut {
        FanOut { phase: RelayPhase::Open }
    }

    /// The relay after `input`, and what it asks for.
    ///
    /// While the relay is open:
    /// * a text is published as its UTF-8 bytes and echoed to the caller;
    /// * a binary unit is echoed as it is, and a ping is answered with a pong
    ///   of the same bytes; neither is published;
    /// * the close of the stream closes the relay;
    /// * a publish that failed is noted, and one that went through is not.
    ///
    /// A closed relay asks for nothing.
    pub open spec fn step_spec(self, input: FanOutInputView) -> (FanOut, FanOutOutputView) {
        match (self.phase, input) {
            (RelayPhase::Closed, _) => (self, FanOutOutputView::nothing()),
            (_, FanOutInputView::Front(InboundView::Text(text))) => (
                self,
                FanOutOutputView {
                    publish: Some(encode_utf8(text)),
                    reply: Some(OutboundView::Text(text)),
                    swallowed: None,
                },
            ),
            (_, FanOutInputView::Front(InboundView::Binary(bytes))) => (
                self,
                FanOutOutputView::only_reply(OutboundView::Binary(bytes)),
            ),
            (_, FanOutInputView::Front(InboundView::Ping(bytes))) => (
                self,
                FanOutOutputView::only_reply(OutboundView::Pong(bytes)),
            ),
            (_, FanOutInputView::Front(InboundView::Close)) => (
                FanOut { phase: RelayPhase::Closed },
                FanOutOutputView::nothing(),
            ),
            (_, FanOutInputView::Published(report)) => (
                self,
                FanOutOutputView {
                    publish: None,
                    reply: None,
                    swallowed: match sent_spec(report) {
                        Ok(_) => None,
                        Err(e) => Some(e),
                    },
                },
            ),
        }
    }

    /// The messages for the caller that the relay asks for as `inputs`
    /// arrive in order.
    pub open spec fn replies(self, inputs: Seq<FanOutInputView>) -> Seq<OutboundView>
        decreases inputs.len(),
    {
        if inputs.len() == 0 {
            Seq::empty()
        } else {
            let (next, output) = self.step_spec(inputs[0]);
            let rest = next.replies(inputs.drop_first());
            match output.reply {
                Some(message) => seq![message] + rest,
                None => rest,
            }
        }
    }

    /// The relay of a stream that has just been opened.
    pub fn open() -> (relay: FanOut)
        ensures
            relay == FanOut::opened(),
    {
        FanOut { phase: RelayPhase::Open }
    }

    /// Whether the relay is open.
    pub fn is_open(&self) -> (b: bool)
        ensures
            b == (self.phase == RelayPhase::Open),
    {
        matches!(self.phase, RelayPhase::Open)
    }

    /// Takes a message of the caller or the report of a publish and says
    /// what to do.
    pub fn step(&mut self, input: FanOutInput) -> (output: FanOutOutput)
        ensures
            (*final(self), output@) == old(self).step_spec(input@),
    {
        match (self.phase, input) {
            (RelayPhase::Closed, _) => FanOutOutput { publish: None, reply: None, swallowed: None },
            (_, FanOutInput::Front(Inbound::Text(text))) => {
                let bytes = text.as_str().as_bytes_vec();
                FanOutOutput {
                    publish: Some(bytes),
                    reply: Some(Outbound::Text(text)),
                    swallowed: None,
                }
            },
            (_, FanOutInput::Front(Inbound::Binary(bytes))) => FanOutOutput {
                publish: None,
                reply: Some(Outbound::Binary(bytes)),
                swallowed: None,
            },
            (_, FanOutInput::Front(Inbound::Ping(bytes))) => FanOutOutput {
                publish: None,
                reply: Some(Outbound::Pong(bytes)),
                swallowed: None,
            },
            (_, FanOutInput::Front(Inbound::Close)) => {
                self.phase = RelayPhase::Closed;
                FanOutOutput { publish: None, reply: None, swallowed: None }
            },
            (_, FanOutInput::Published(report)) => FanOutOutput {
                publish: None,
                reply: None,
                swallowed: match sent(report) {
                    Ok(_) => None,
                    Err(e) => Some(e),
                },
            },
        }
    }
}

/// Every text is echoed exactly once.  An open relay answers a text with
/// one publish of its bytes and one echo of the text, and answers the report
/// of that publish, success or failure, with no message for the caller and
/// no further publish.  The relay is open afterwards as it was before.
pub proof fn law_text_is_echoed_once(text: Seq<char>, report: Result<(), i32>)
    ensures
        ({
            let relay = FanOut::opened();
            let (forwarded, first) = relay.step_spec(
                FanOutInputView::Front(InboundView::Text(text)),
            );
            let (reported, second) = forwarded.step_spec(FanOutInputView::Published(report));
            &&& first.publish == Some(encode_utf8(text))
            &&& first.reply == Some(OutboundView::Text(text))
            &&& second.publish is None
            &&& second.reply is None
            &&& reported == relay
        }),
{
}

/// The messages of the caller among `inputs`, each as the echo that
/// answers it: a text as itself, a binary unit as itself, a ping as a pong.
pub open spec fn echoes(inputs: Seq<FanOutInputView>) -> Seq<OutboundView>
    decreases inputs.len(),
{
    if inputs.len() == 0 {
        Seq::empty()
    } else {
        let rest = echoes(inputs.drop_first());
        match inputs[0] {
            FanOutInputView::Front(InboundView::Text(text)) => seq![OutboundView::Text(text)]
                + rest,
            FanOutInputView::Front(InboundView::Binary(bytes)) => seq![
                OutboundView::Binary(bytes),
            ] + rest,
            FanOutInputView::Front(InboundView::Ping(bytes)) => seq![OutboundView::Pong(bytes)]
                + rest,
            _ => rest,
        }
    }
}

/// A stream is echoed message by message.  Until the stream is closed, and
/// however the reports of the broadcast channel fall among the messages, the
/// caller gets the echo of each of its messages, once and in order, and
/// nothing else.
pub proof fn law_stream_is_echoed_in_order(inputs: Seq<FanOutInputView>)
    requires
        forall|i: int|
            0 <= i < inputs.len() ==> inputs[i] != FanOutInputView::Front(InboundView::Close),
    ensures
        FanOut::opened().replies(inputs) == echoes(inputs),
    decreases inputs.len(),
{
    if inputs.len() > 0 {
        let rest = inputs.drop_first();
        assert forall|i: int| 0 <= i < rest.len() implies rest[i] != FanOutInputView::Front(
            InboundView::Close,
        ) by {
            assert(rest[i] == inputs[i + 1]);
        }
        law_stream_is_echoed_in_order(rest);
    }
}

} // verus!
