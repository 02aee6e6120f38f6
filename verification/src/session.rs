//! The session-bound bridge: one backend connection for the life of a
//! front-end stream, and replies fetched when the caller asks.
//!
//! The caller speaks two kinds of text.  The poll command asks whether a
//! reply is there; every other text is a payload to submit.  A submit takes
//! no reply with it: the bridge waits for the backend only when it is
//! polled, and then for a bounded time.  Failures of the backend are noted
//! for the log and kept from the caller, so that one bad exchange does not
//! end a long-lived session.
//!
//! The caller is to submit only when the reply to its earlier submit has
//! been fetched.  The bridge records whether a request is outstanding, in
//! [`Session::connection`], and does not refuse a submit on that account.

use vstd::prelude::*;
use vstd::string::{StrSliceExecFns, StringExecFns};
use vstd::utf8::{
    decode_utf8, encode_utf8, encode_utf8_decode_utf8, encode_utf8_valid_utf8, valid_utf8,
};
use crate::backend::{
    reply_view, send, sent, sent_spec, try_receive_spec, Command, CommandView, Event, EventView,
};
use crate::connection::Connection;
use crate::envelope::sealed;
use crate::error::{ConnectionError, EncodingError};
use crate::frontend::{Inbound, InboundView, Outbound, OutboundView};
use crate::policy::ReplyPolicy;
use crate::reply_wait::{
    law_reply_ends_wait, law_silence_exhausts_wait, silence, ReplyWait, WaitPhase, WaitStep,
    WaitStepView,
};
use crate::text::decode_text;

verus! {

/// The text by which the caller asks for a pending reply.
pub const POLL_COMMAND: &'static str = "poll";

/// Where a session stands.
#[derive(Clone, Copy, Debug, PartialEq, Eq, Structural)]
pub enum SessionPhase {
    /// The connect is outstanding.
    Opening,
    /// The next message of the caller is awaited.
    Ready,
    /// The transmission of a submit is outstanding.
    Submitting,
    /// A poll of the caller is being served.
    Polling(ReplyWait),
    /// The session is over.
    Closed,
}

/// One session of the bridge.
#[derive(Clone, Copy, Debug, PartialEq, Eq, Structural)]
pub struct Session {
    /// The budget of the wait that serves a poll.
    pub policy: ReplyPolicy,
    /// The record of the connection of this session.
    pub connection: Connection,
    /// Where the session stands.
    pub phase: SessionPhase,
}

/// What a session is told.
#[derive(Debug, PartialEq, Eq)]
pub enum SessionInput {
    /// A message arrived from the caller.
    Front(Inbound),
    /// The backend socket reported the outcome of a command.
    Backend(Event),
}

/// A [`SessionInput`] over sequences.
pub enum SessionInputView {
    Front(InboundView),
    Backend(EventView),
}

impl View for SessionInput {
    type V = SessionInputView;

    open spec fn view(&self) -> SessionInputView {
        match *self {
            SessionInput::Front(message) => SessionInputView::Front(message@),
            SessionInput::Backend(event) => SessionInputView::Backend(event@),
        }
    }
}

/// Why the caller gets no message.
#[derive(Clone, Copy, Debug, PartialEq, Eq, Structural)]
pub enum Swallowed {
    /// The wait ran out and no reply had come.
    NoReply,
    /// A reply came and its payload is empty.
    EmptyReply,
    /// A reply came and its payload is not text.
    NotText(EncodingError),
    /// The backend failed.
    Backend(ConnectionError),
    /// The session has no live connection.
    NotConnected,
}

/// What a session asks of its driver next.
#[derive(Debug, PartialEq, Eq)]
pub enum SessionAction {
    /// Perform this command on the backend socket and report its outcome.
    Backend(Command),
    /// Send this message to the caller, then read on.
    Deliver(Outbound),
    /// Nothing to do: read on.
    Continue,
    /// Nothing goes to the caller, for the reason given, which is for the
    /// log: read on.
    Dropped(Swallowed),
    /// The session is over.  Close the backend socket where `close` is set.
    End { close: bool },
    /// The input is not one that the session awaits.  Nothing has changed.
    Ignored,
}

/// A [`SessionAction`] over sequences.
pub enum SessionActionView {
    Backend(CommandView),
    Deliver(OutboundView),
    Continue,
    Dropped(Swallowed),
    End { close: bool },
    Ignored,
}

impl View for SessionAction {
    type V = SessionActionView;

    open spec fn view(&self) -> SessionActionView {
        match *self {
            SessionAction::Backend(command) => SessionActionView::Backend(command@),
            SessionAction::Deliver(message) => SessionActionView::Deliver(message@),
            SessionAction::Continue => SessionActionView::Continue,
            SessionAction::Dropped(reason) => SessionActionView::Dropped(reason),
            SessionAction::End { close } => SessionActionView::End { close },
            SessionAction::Ignored => SessionActionView::Ignored,
        }
    }
}

/// What the caller gets of a reply: the text that a payload encodes, where
/// the payload is not empty and is valid UTF-8, and else nothing.
pub open spec fn forwarded(reply: Result<Option<Seq<u8>>, ConnectionError>) -> SessionActionView {
    match reply {
        Ok(Some(payload)) => if payload.len() == 0 {
            SessionActionView::Dropped(Swallowed::EmptyReply)
        } else if valid_utf8(payload) {
            SessionActionView::Deliver(OutboundView::Text(decode_utf8(payload)))
        } else {
            SessionActionView::Dropped(Swallowed::NotText(EncodingError {}))
        },
        Ok(None) => SessionActionView::Dropped(Swallowed::NoReply),
        Err(e) => SessionActionView::Dropped(Swallowed::Backend(e)),
    }
}

impl Session {
    /// A session under `policy` and its first action: to connect.
    pub open spec fn open_spec(policy: ReplyPolicy) -> (Session, SessionActionView) {
        (
            Session { policy, connection: Connection::absent(), phase: SessionPhase::Opening },
            SessionActionView::Backend(CommandView::Connect),
        )
    }

    /// The session after its wait has ended with `reply`.  The session is
    /// ready again.  The outstanding request is resolved unless the wait
    /// failed.
    pub open spec fn settle_spec(self, reply: Result<Option<Seq<u8>>, ConnectionError>) -> (
        Session,
        SessionActionView,
    ) {
        (
            Session {
                connection: if reply is Ok {
                    self.connection.after_resolution()
                } else {
                    self.connection
                },
                phase: SessionPhase::Ready,
                ..self
            },
            forwarded(reply),
        )
    }

    /// The session after a step of its wait: the wait goes on with the
    /// command it issues, or its result is settled.
    pub open spec fn wait_on_spec(self, wait: ReplyWait, step: WaitStepView) -> (
        Session,
        SessionActionView,
    ) {
        match step {
            WaitStepView::Issue(command) => (
                Session { phase: SessionPhase::Polling(wait), ..self },
                SessionActionView::Backend(command),
            ),
            WaitStepView::Done(reply) => self.settle_spec(reply),
            WaitStepView::Ignored => (self, SessionActionView::Ignored),
        }
    }

    /// The end of the session: the connection is given up, to be closed
    /// where it was live.  A request that was outstanding is abandoned.
    pub open spec fn close_spec(self) -> (Session, SessionActionView) {
        (
            Session { connection: Connection::absent(), phase: SessionPhase::Closed, ..self },
            SessionActionView::End { close: self.connection.live },
        )
    }

    /// The session after a text of the caller.  Without a live connection
    /// the text is dropped.  The poll command starts a wait for a reply.
    /// Any other text is submitted: its UTF-8 bytes go out as one envelope.
    pub open spec fn on_text_spec(self, text: Seq<char>) -> (Session, SessionActionView) {
        if !self.connection.live {
            (self, SessionActionView::Dropped(Swallowed::NotConnected))
        } else if text == POLL_COMMAND@ {
            let (wait, first) = ReplyWait::begin_spec(self.policy);
            self.wait_on_spec(wait, first)
        } else {
            (
                Session { phase: SessionPhase::Submitting, ..self },
                SessionActionView::Backend(
                    CommandView::Transmit { parts: sealed(encode_utf8(text)) },
                ),
            )
        }
    }

    /// The session after `input`, and the action it answers with.
    ///
    /// * A closed session ignores everything.
    /// * The close of the stream ends the session, whatever is outstanding.
    /// * While opening, the report of the connect makes the session ready,
    ///   with a live connection or, where the connect failed, without.
    /// * While ready, a text is handled as [`Session::on_text_spec`] says, a
    ///   binary unit is echoed as it is, and a ping is answered with a pong
    ///   of the same bytes.
    /// * While submitting, the report of the transmission makes the session
    ///   ready again; a request is outstanding where it went through, and
    ///   the payload is dropped where it did not.
    /// * While polling, the reports of the backend go to the wait, and its
    ///   result is forwarded as [`forwarded`] says.
    /// * Any other input is ignored.
    pub open spec fn step_spec(self, input: SessionInputView) -> (Session, SessionActionView) {
        match (self.phase, input) {
            (SessionPhase::Closed, _) => (self, SessionActionView::Ignored),
            (_, SessionInputView::Front(InboundView::Close)) => self.close_spec(),
            (SessionPhase::Opening, SessionInputView::Backend(EventView::Connected(Ok(_)))) => (
                Session {
                    connection: Connection::established(),
                    phase: SessionPhase::Ready,
                    ..self
                },
                SessionActionView::Continue,
            ),
            (SessionPhase::Opening, SessionInputView::Backend(EventView::Connected(Err(code)))) => (
                Session { phase: SessionPhase::Ready, ..self },
                SessionActionView::Dropped(Swallowed::Backend(ConnectionError::Socket { code })),
            ),
            (SessionPhase::Ready, SessionInputView::Front(InboundView::Text(text))) => {
                self.on_text_spec(text)
            },
            (SessionPhase::Ready, SessionInputView::Front(InboundView::Binary(bytes))) => (
                self,
                SessionActionView::Deliver(OutboundView::Binary(bytes)),
            ),
            (SessionPhase::Ready, SessionInputView::Front(InboundView::Ping(bytes))) => (
                self,
                SessionActionView::Deliver(OutboundView::Pong(bytes)),
            ),
            (SessionPhase::Submitting, SessionInputView::Backend(EventView::Sent(report))) => {
                match sent_spec(report) {
                    Ok(_) => (
                        Session {
                            connection: self.connection.after_send(),
                            phase: SessionPhase::Ready,
                            ..self
                        },
                        SessionActionView::Continue,
                    ),
                    Err(e) => (
                        Session { phase: SessionPhase::Ready, ..self },
                        SessionActionView::Dropped(Swallowed::Backend(e)),
                    ),
                }
            },
            (SessionPhase::Polling(wait), SessionInputView::Backend(event)) => {
                let (next, step) = wait.step_spec(event);
                self.wait_on_spec(next, step)
            },
            _ => (self, SessionActionView::Ignored),
        }
    }

    /// The session after `inputs` have arrived in order.
    pub open spec fn after(self, inputs: Seq<SessionInputView>) -> Session
        decreases inputs.len(),
    {
        if inputs.len() == 0 {
            self
        } else {
            self.step_spec(inputs[0]).0.after(inputs.drop_first())
        }
    }

    /// The actions that the session answers with as `inputs` arrive in
    /// order.
    pub open spec fn answers(self, inputs: Seq<SessionInputView>) -> Seq<SessionActionView>
        decreases inputs.len(),
    {
        if inputs.len() == 0 {
            Seq::empty()
        } else {
            let (next, action) = self.step_spec(inputs[0]);
            seq![action] + next.answers(inputs.drop_first())
        }
    }

    /// What holds of a session at every point of its life: no connection is
    /// live before the connect or after the close, and one is live while a
    /// command is outstanding on it.
    pub open spec fn consistent(self) -> bool {
        match self.phase {
            SessionPhase::Opening => self.connection == Connection::absent(),
            SessionPhase::Ready => true,
            SessionPhase::Submitting => self.connection.live,
            SessionPhase::Polling(_) => self.connection.live,
            SessionPhase::Closed => self.connection == Connection::absent(),
        }
    }

    /// A session under `policy` whose connect went through and on which
    /// nothing has been submitted.
    pub open spec fn connected(policy: ReplyPolicy) -> Session {
        Session { policy, connection: Connection::established(), phase: SessionPhase::Ready }
    }

    /// Opens a session under `policy`.  The first action is to connect: the
    /// session has one backend connection, from now until it is closed.
    pub fn open(policy: ReplyPolicy) -> (r: (Session, SessionAction))
        ensures
            (r.0, r.1@) == Session::open_spec(policy),
    {
        (
            Session { policy, connection: Connection::none(), phase: SessionPhase::Opening },
            SessionAction::Backend(Command::Connect),
        )
    }

    /// Whether the session is over.
    pub fn is_closed(&self) -> (b: bool)
        ensures
            b == (self.phase == SessionPhase::Closed),
    {
        matches!(self.phase, SessionPhase::Closed)
    }

    fn settle(&mut self, reply: Result<Option<Vec<u8>>, ConnectionError>) -> (action:
        SessionAction)
        ensures
            (*final(self), action@) == old(self).settle_spec(reply_view(reply)),
    {
        self.phase = SessionPhase::Ready;
        match reply {
            Ok(Some(payload)) => {
                self.connection.request_resolved();
                if payload.len() == 0 {
                    SessionAction::Dropped(Swallowed::EmptyReply)
                } else {
                    match decode_text(payload) {
                        Ok(text) => SessionAction::Deliver(Outbound::Text(text)),
                        Err(e) => SessionAction::Dropped(Swallowed::NotText(e)),
                    }
                }
            },
            Ok(None) => {
                self.connection.request_resolved();
                SessionAction::Dropped(Swallowed::NoReply)
            },
            Err(e) => SessionAction::Dropped(Swallowed::Backend(e)),
        }
    }

    fn wait_on(&mut self, wait: ReplyWait, step: WaitStep) -> (action: SessionAction)
        ensures
            (*final(self), action@) == old(self).wait_on_spec(wait, step@),
    {
        match step {
            WaitStep::Issue(command) => {
                self.phase = SessionPhase::Polling(wait);
                SessionAction::Backend(command)
            },
            WaitStep::Done(reply) => self.settle(reply),
            WaitStep::Ignored => SessionAction::Ignored,
        }
    }

    fn close(&mut self) -> (action: SessionAction)
        ensures
            (*final(self), action@) == old(self).close_spec(),
    {
        let close = self.connection.live;
        self.connection.close();
        self.phase = SessionPhase::Closed;
        SessionAction::End { close }
    }

    fn on_text(&mut self, text: String) -> (action: SessionAction)
        ensures
            (*final(self), action@) == old(self).on_text_spec(text@),
    {
        if !self.connection.live {
            SessionAction::Dropped(Swallowed::NotConnected)
        } else if text == String::from_str(POLL_COMMAND) {
            let (wait, first) = ReplyWait::begin(self.policy);
            self.wait_on(wait, first)
        } else {
            self.phase = SessionPhase::Submitting;
            SessionAction::Backend(send(text.as_str().as_bytes_vec()))
        }
    }

    /// Takes a message of the caller or a report of the backend socket and
    /// gives the next action.
    pub fn step(&mut self, input: SessionInput) -> (action: SessionAction)
        ensures
            (*final(self), action@) == old(self).step_spec(input@),
    {
        match (self.phase, input) {
            (SessionPhase::Closed, _) => SessionAction::Ignored,
            (_, SessionInput::Front(Inbound::Close)) => self.close(),
            (SessionPhase::Opening, SessionInput::Backend(Event::Connected(Ok(_)))) => {
                self.connection = Connection::open();
                self.phase = SessionPhase::Ready;
                SessionAction::Continue
            },
            (SessionPhase::Opening, SessionInput::Backend(Event::Connected(Err(code)))) => {
                self.phase = SessionPhase::Ready;
                SessionAction::Dropped(Swallowed::Backend(ConnectionError::Socket { code }))
            },
            (SessionPhase::Ready, SessionInput::Front(Inbound::Text(text))) => self.on_text(text),
            (SessionPhase::Ready, SessionInput::Front(Inbound::Binary(bytes))) => {
                SessionAction::Deliver(Outbound::Binary(bytes))
            },
            (SessionPhase::Ready, SessionInput::Front(Inbound::Ping(bytes))) => {
                SessionAction::Deliver(Outbound::Pong(bytes))
            },
            (SessionPhase::Submitting, SessionInput::Backend(Event::Sent(report))) => {
                self.phase = SessionPhase::Ready;
                match sent(report) {
                    Ok(_) => {
                        self.connection.request_sent();
                        SessionAction::Continue
                    },
                    Err(e) => SessionAction::Dropped(Swallowed::Backend(e)),
                }
            },
            (SessionPhase::Polling(wait), SessionInput::Backend(event)) => {
                let mut wait = wait;
                let step = wait.step(event);
                self.wait_on(wait, step)
            },
            _ => SessionAction::Ignored,
        }
    }
}

/// `n` polls of `timeout_ms` milliseconds each, as actions of a session.
pub open spec fn polls(n: nat, timeout_ms: u64) -> Seq<SessionActionView> {
    Seq::new(n, |i: int| SessionActionView::Backend(CommandView::Poll { timeout_ms }))
}

/// Reports of the backend socket as inputs of a session.
pub open spec fn backend_inputs(events: Seq<EventView>) -> Seq<SessionInputView> {
    Seq::new(events.len(), |i: int| SessionInputView::Backend(events[i]))
}

/// The action that a session makes of a step of its wait.
pub open spec fn lifted(step: WaitStepView) -> SessionActionView {
    match step {
        WaitStepView::Issue(command) => SessionActionView::Backend(command),
        WaitStepView::Done(reply) => forwarded(reply),
        WaitStepView::Ignored => SessionActionView::Ignored,
    }
}

/// The answers to inputs that arrive one after the other are the answers to
/// the first ones, followed by the answers that the session then gives to
/// the others.
pub proof fn lemma_answers_in_turn(
    session: Session,
    first: Seq<SessionInputView>,
    then: Seq<SessionInputView>,
)
    ensures
        session.answers(first + then) == session.answers(first) + session.after(first).answers(
            then,
        ),
        session.after(first + then) == session.after(first).after(then),
    decreases first.len(),
{
    if first.len() > 0 {
        assert((first + then).drop_first() =~= first.drop_first() + then);
        lemma_answers_in_turn(session.step_spec(first[0]).0, first.drop_first(), then);
    }
}

/// While it serves a poll a session does what the wait does: each command
/// that the wait issues goes to the backend, and the result of the wait is
/// forwarded.  Once the wait is over, neither answers to the backend.
pub proof fn lemma_session_follows_wait(session: Session, wait: ReplyWait, events: Seq<EventView>)
    requires
        session.phase == SessionPhase::Polling(wait) || (session.phase == SessionPhase::Ready
            && wait.phase == WaitPhase::Finished),
    ensures
        session.answers(backend_inputs(events)).len() == events.len(),
        wait.answers(events).len() == events.len(),
        forall|i: int|
            0 <= i < events.len() ==> #[trigger] session.answers(backend_inputs(events))[i]
                == lifted(wait.answers(events)[i]),
    decreases events.len(),
{
    if events.len() > 0 {
        let inputs = backend_inputs(events);
        let rest = events.drop_first();
        assert(inputs.drop_first() =~= backend_inputs(rest));
        let next_wait = wait.step_spec(events[0]).0;
        let next_session = session.step_spec(inputs[0]).0;
        lemma_session_follows_wait(next_session, next_wait, rest);
        assert forall|i: int| 0 < i < events.len() implies #[trigger] session.answers(inputs)[i]
            == lifted(wait.answers(events)[i]) by {
            assert(session.answers(inputs)[i] == next_session.answers(backend_inputs(rest))[i - 1]);
            assert(wait.answers(events)[i] == next_wait.answers(rest)[i - 1]);
        }
    }
}

/// A poll of the caller is one wait for a reply.  A session that is ready
/// and connected answers the poll command, and the reports of the backend
/// that follow it, with the steps of a wait under its policy: the commands
/// go to the backend and the result is forwarded.
pub proof fn lemma_poll_is_a_wait(session: Session, events: Seq<EventView>)
    requires
        session.phase == SessionPhase::Ready,
        session.connection.live,
    ensures
        session.answers(
            seq![SessionInputView::Front(InboundView::Text(POLL_COMMAND@))] + backend_inputs(
                events,
            ),
        ).len() == events.len() + 1,
        ReplyWait::await_reply_spec(session.policy, events).len() == events.len() + 1,
        forall|i: int|
            0 <= i <= events.len() ==> #[trigger] session.answers(
                seq![SessionInputView::Front(InboundView::Text(POLL_COMMAND@))] + backend_inputs(
                    events,
                ),
            )[i] == lifted(ReplyWait::await_reply_spec(session.policy, events)[i]),
{
    let inputs = seq![SessionInputView::Front(InboundView::Text(POLL_COMMAND@))] + backend_inputs(
        events,
    );
    let wait = ReplyWait::begin_spec(session.policy).0;
    let polling = session.step_spec(inputs[0]).0;
    assert(inputs.drop_first() =~= backend_inputs(events));
    lemma_session_follows_wait(polling, wait, events);
    let steps = ReplyWait::await_reply_spec(session.policy, events);
    assert forall|i: int| 0 < i <= events.len() implies #[trigger] session.answers(inputs)[i]
        == lifted(steps[i]) by {
        assert(session.answers(inputs)[i] == polling.answers(backend_inputs(events))[i - 1]);
        assert(steps[i] == wait.answers(events)[i - 1]);
    }
}

/// A poll before any submit brings nothing.  In a session that has
/// connected and submitted nothing, where the backend, which was asked
/// nothing, has nothing to say, the poll command leads to the polls of one
/// wait and then to no message for the caller, for the reason that no reply
/// came: no error is noted.  In a session whose connect failed, the poll
/// command leads to no message at once.
pub proof fn law_poll_before_submit_brings_nothing(policy: ReplyPolicy, code: i32)
    ensures
        Session::open_spec(policy).0.step_spec(
            SessionInputView::Backend(EventView::Connected(Ok(()))),
        ).0 == Session::connected(policy),
        Session::open_spec(policy).0.step_spec(
            SessionInputView::Backend(EventView::Connected(Err(code))),
        ).0.step_spec(SessionInputView::Front(InboundView::Text(POLL_COMMAND@))).1
            == SessionActionView::Dropped(Swallowed::NotConnected),
        Session::connected(policy).answers(
            seq![SessionInputView::Front(InboundView::Text(POLL_COMMAND@))] + backend_inputs(
                silence(policy.max_attempts as nat),
            ),
        ) == polls(policy.max_attempts as nat, policy.attempt_timeout_ms) + seq![
            SessionActionView::Dropped(Swallowed::NoReply),
        ],
{
    let session = Session::connected(policy);
    let events = silence(policy.max_attempts as nat);
    let inputs = seq![SessionInputView::Front(InboundView::Text(POLL_COMMAND@))] + backend_inputs(
        events,
    );
    lemma_poll_is_a_wait(session, events);
    law_silence_exhausts_wait(policy);
    let steps = ReplyWait::await_reply_spec(policy, events);
    assert forall|i: int| 0 <= i < steps.len() implies session.answers(inputs)[i] == lifted(
        steps[i],
    ) by {}
}

/// A session asks nothing of a socket that is not there.  A session is
/// consistent when it is opened and after every step.  It never asks to
/// connect again, and each command that it issues in answer to an input
/// finds a live connection.  At its end the session has the socket closed
/// exactly where it had one.
pub proof fn law_session_stays_consistent(session: Session, input: SessionInputView)
    requires
        session.consistent(),
    ensures
        Session::open_spec(session.policy).0.consistent(),
        ({
            let (next, action) = session.step_spec(input);
            &&& next.consistent()
            &&& action matches SessionActionView::Backend(command) ==> {
                &&& command != CommandView::Connect
                &&& next.connection.live
            }
            &&& action matches SessionActionView::End { close } ==> {
                &&& close == session.connection.live
                &&& !next.connection.live
            }
        }),
{
}

/// A session waits only when it is polled.  A session that is ready
/// answers every message of the caller but the poll command without a poll
/// of the socket and without a receive: the stream of the caller is read on
/// without a wait.
pub proof fn law_session_waits_only_when_polled(session: Session, message: InboundView)
    requires
        session.phase == SessionPhase::Ready,
        message != InboundView::Text(POLL_COMMAND@),
    ensures
        ({
            let (next, action) = session.step_spec(SessionInputView::Front(message));
            &&& !(next.phase is Polling)
            &&& !(action matches SessionActionView::Backend(CommandView::Poll { .. }))
            &&& action != SessionActionView::Backend(CommandView::Receive)
        }),
{
}

/// A submit and a poll bring the echo.  In a session that has connected, a
/// text other than the poll command, and not empty, goes out as one
/// envelope of its UTF-8 bytes.  When the caller then polls and the backend
/// sends these bytes back within the wait, the caller gets exactly the text
/// it submitted, as soon as the reply is there.
pub proof fn law_submit_then_poll_delivers_echo(
    policy: ReplyPolicy,
    text: Seq<char>,
    quiet: nat,
    signalled: i32,
    delimiter: Seq<u8>,
)
    requires
        text != POLL_COMMAND@,
        text.len() > 0,
        quiet < policy.max_attempts,
        signalled != 0,
    ensures
        Session::connected(policy).answers(
            seq![
                SessionInputView::Front(InboundView::Text(text)),
                SessionInputView::Backend(EventView::Sent(Ok(()))),
            ] + (seq![SessionInputView::Front(InboundView::Text(POLL_COMMAND@))] + backend_inputs(
                silence(quiet) + seq![
                    EventView::Polled(Ok(signalled)),
                    EventView::Received(Ok(Some(seq![delimiter, encode_utf8(text)]))),
                ],
            )),
        ) == seq![
            SessionActionView::Backend(CommandView::Transmit { parts: sealed(encode_utf8(text)) }),
            SessionActionView::Continue,
        ] + polls(quiet + 1, policy.attempt_timeout_ms) + seq![
            SessionActionView::Backend(CommandView::Receive),
            SessionActionView::Deliver(OutboundView::Text(text)),
        ],
{
    let session = Session::connected(policy);
    let received: Result<Option<Seq<Seq<u8>>>, i32> = Ok(Some(seq![delimiter, encode_utf8(text)]));
    let submit = seq![
        SessionInputView::Front(InboundView::Text(text)),
        SessionInputView::Backend(EventView::Sent(Ok(()))),
    ];
    let events = silence(quiet) + seq![
        EventView::Polled(Ok(signalled)),
        EventView::Received(received),
    ];
    let poll = seq![SessionInputView::Front(InboundView::Text(POLL_COMMAND@))] + backend_inputs(
        events,
    );
    // The submit goes out, and its reply is owed.
    let submitting = session.step_spec(submit[0]).0;
    let sent = submit.drop_first();
    let (owing, next) = submitting.step_spec(sent[0]);
    assert(owing.answers(sent.drop_first()) =~= Seq::empty());
    assert(submitting.answers(sent) =~= seq![next]);
    assert(owing.after(sent.drop_first()) == owing);
    assert(submitting.after(sent) == owing);
    // The poll is one wait, which the reply ends.
    lemma_answers_in_turn(session, submit, poll);
    lemma_poll_is_a_wait(owing, events);
    law_reply_ends_wait(policy, quiet, signalled, received);
    // The reply is the text that went out.
    assert(forwarded(try_receive_spec(received)) == SessionActionView::Deliver(
        OutboundView::Text(text),
    )) by {
        encode_utf8_valid_utf8(text);
        encode_utf8_decode_utf8(text);
    }
    let steps = ReplyWait::await_reply_spec(policy, events);
    let actions = session.answers(submit) + owing.answers(poll);
    assert forall|i: int| 2 <= i < actions.len() implies actions[i] == lifted(steps[i - 2]) by {
        assert(actions[i] == owing.answers(poll)[i - 2]);
    }
}

} // verus!
