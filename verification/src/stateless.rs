//! The stateless bridge: one call, one backend connection, one cycle.
//!
//! Each inbound call opens a connection of its own, sends the body of the
//! call as one envelope, waits for the reply under the policy of the bridge,
//! closes the connection and responds.  Nothing outlives the call.

use vstd::prelude::*;
use vstd::string::{StrSliceExecFns, StringSliceAdditionalSpecFns};
use crate::backend::{
    reply_view, send, sent, sent_spec, try_receive_spec, Command, CommandView, Event, EventView,
};
use crate::connection::Connection;
use crate::envelope::sealed;
use crate::error::ConnectionError;
use crate::policy::ReplyPolicy;
use crate::reply_wait::{
    law_reply_ends_wait, law_silence_exhausts_wait, silence, ReplyWait, WaitPhase, WaitStep,
    WaitStepView,
};

verus! {

/// The body of the response to a call that the backend could not serve.
pub const DIAGNOSTIC: &'static str = "Internal network failure";

/// How a call ended.
#[derive(Clone, Copy, Debug, PartialEq, Eq, Structural)]
pub enum Status {
    /// The call went through.  The body is the reply of the backend, and
    /// empty where the backend gave none.
    Success,
    /// The backend could not be reached or used.
    ServiceUnavailable,
}

/// The response to one call.
#[derive(Debug, PartialEq, Eq)]
pub struct Response {
    pub status: Status,
    pub body: Vec<u8>,
}

/// A [`Response`] over a sequence of bytes.
pub struct ResponseView {
    pub status: Status,
    pub body: Seq<u8>,
}

impl View for Response {
    type V = ResponseView;

    open spec fn view(&self) -> ResponseView {
        ResponseView { status: self.status, body: self.body@ }
    }
}

/// The bytes of [`DIAGNOSTIC`].
pub open spec fn diagnostic() -> Seq<u8> {
    DIAGNOSTIC.spec_bytes()
}

/// The response that an exchange with the backend leads to.
///
/// A connection error gives the service-unavailable response with the
/// diagnostic body.  A reply gives a success with the reply as its body.  No
/// reply within the budget is a success too, with an empty body: a backend
/// that stays silent is not a fault.
pub open spec fn respond_spec(reply: Result<Option<Seq<u8>>, ConnectionError>) -> ResponseView {
    match reply {
        Ok(Some(payload)) => ResponseView { status: Status::Success, body: payload },
        Ok(None) => ResponseView { status: Status::Success, body: Seq::empty() },
        Err(_) => ResponseView { status: Status::ServiceUnavailable, body: diagnostic() },
    }
}

/// The diagnostic body is not empty.
pub proof fn lemma_diagnostic_not_empty()
    ensures
        diagnostic().len() > 0,
{
    reveal_strlit("Internal network failure");
}

/// Maps the outcome of an exchange with the backend to the response of the
/// call.
pub fn respond(reply: Result<Option<Vec<u8>>, ConnectionError>) -> (response: Response)
    ensures
        response@ == respond_spec(reply_view(reply)),
        reply is Err ==> response.body@.len() > 0,
{
    match reply {
        Ok(Some(payload)) => Response { status: Status::Success, body: payload },
        Ok(None) => Response { status: Status::Success, body: Vec::new() },
        Err(_) => {
            proof {
                lemma_diagnostic_not_empty();
            }
            Response { status: Status::ServiceUnavailable, body: DIAGNOSTIC.as_bytes_vec() }
        },
    }
}

/// Where a call stands.
#[derive(Clone, Copy, Debug, PartialEq, Eq, Structural)]
pub enum CallPhase {
    /// The connect is outstanding.
    Connecting,
    /// The request is outstanding.
    Sending,
    /// The request went out and the wait for its reply is under way.
    Waiting(ReplyWait),
    /// The call has been answered.
    Done,
}

/// One call through the stateless bridge.
#[derive(Debug, PartialEq, Eq)]
pub struct Call {
    /// The budget of the wait for the reply.
    pub policy: ReplyPolicy,
    /// The record of the connection of this call.
    pub connection: Connection,
    /// Where the call stands.
    pub phase: CallPhase,
    /// The body of the call, kept until it is sent.
    pub body: Vec<u8>,
}

/// A [`Call`] over a sequence of bytes.
pub struct CallView {
    pub policy: ReplyPolicy,
    pub connection: Connection,
    pub phase: CallPhase,
    pub body: Seq<u8>,
}

impl View for Call {
    type V = CallView;

    open spec fn view(&self) -> CallView {
        CallView {
            policy: self.policy,
            connection: self.connection,
            phase: self.phase,
            body: self.body@,
        }
    }
}

/// What a call asks of its driver next.
#[derive(Debug, PartialEq, Eq)]
pub enum CallAction {
    /// Perform this command on the backend socket and report its outcome.
    Backend(Command),
    /// The call is over.  Close the backend socket where `close` is set,
    /// then answer the caller with `response`.
    Finish { close: bool, response: Response },
    /// The event answers no outstanding command.  Nothing has changed.
    Ignored,
}

/// A [`CallAction`] over sequences of bytes.
pub enum CallActionView {
    Backend(CommandView),
    Finish { close: bool, response: ResponseView },
    Ignored,
}

impl View for CallAction {
    type V = CallActionView;

    open spec fn view(&self) -> CallActionView {
        match *self {
            CallAction::Backend(command) => CallActionView::Backend(command@),
            CallAction::Finish { close, response } => CallActionView::Finish {
                close,
                response: response@,
            },
            CallAction::Ignored => CallActionView::Ignored,
        }
    }
}

impl CallView {
    /// A call with `body` under `policy`, and its first action: to connect.
    pub open spec fn begin(body: Seq<u8>, policy: ReplyPolicy) -> (CallView, CallActionView) {
        (
            CallView {
                policy,
                connection: Connection::absent(),
                phase: CallPhase::Connecting,
                body,
            },
            CallActionView::Backend(CommandView::Connect),
        )
    }

    /// The end of the call: the connection is given up, closed where one was
    /// live, and the caller gets the response that `reply` leads to.
    pub open spec fn finish(self, reply: Result<Option<Seq<u8>>, ConnectionError>) -> (
        CallView,
        CallActionView,
    ) {
        (
            CallView { connection: Connection::absent(), phase: CallPhase::Done, ..self },
            CallActionView::Finish { close: self.connection.live, response: respond_spec(reply) },
        )
    }

    /// The call after a step of its wait: the wait goes on with the command
    /// it issues, or its result ends the call.
    pub open spec fn wait_on(self, wait: ReplyWait, step: WaitStepView) -> (
        CallView,
        CallActionView,
    ) {
        match step {
            WaitStepView::Issue(command) => (
                CallView { phase: CallPhase::Waiting(wait), ..self },
                CallActionView::Backend(command),
            ),
            WaitStepView::Done(reply) => self.finish(reply),
            WaitStepView::Ignored => (self, CallActionView::Ignored),
        }
    }

    /// The call after `event`, and the action it answers with.
    ///
    /// * A connect that succeeded is followed by the transmission of the
    ///   body as one envelope; one that failed ends the call.
    /// * A transmission that succeeded starts the wait for the reply; one
    ///   that failed ends the call.
    /// * During the wait, events go to the wait, and its result ends the
    ///   call.
    /// * Any other event is ignored.
    pub open spec fn step_spec(self, event: EventView) -> (CallView, CallActionView) {
        match (self.phase, event) {
            (CallPhase::Connecting, EventView::Connected(Ok(_))) => (
                CallView {
                    connection: Connection::established(),
                    phase: CallPhase::Sending,
                    body: Seq::empty(),
                    ..self
                },
                CallActionView::Backend(CommandView::Transmit { parts: sealed(self.body) }),
            ),
            (CallPhase::Connecting, EventView::Connected(Err(code))) => self.finish(
                Err(ConnectionError::Socket { code }),
            ),
            (CallPhase::Sending, EventView::Sent(report)) => match sent_spec(report) {
                Ok(_) => {
                    let (wait, first) = ReplyWait::begin_spec(self.policy);
                    (CallView { connection: self.connection.after_send(), ..self }).wait_on(
                        wait,
                        first,
                    )
                },
                Err(e) => self.finish(Err(e)),
            },
            (CallPhase::Waiting(wait), _) => {
                let (next, step) = wait.step_spec(event);
                self.wait_on(next, step)
            },
            _ => (self, CallActionView::Ignored),
        }
    }

    /// The call after `events` have arrived in order.
    pub open spec fn after(self, events: Seq<EventView>) -> CallView
        decreases events.len(),
    {
        if events.len() == 0 {
            self
        } else {
            self.step_spec(events[0]).0.after(events.drop_first())
        }
    }

    /// The actions that the call answers with as `events` arrive in order.
    pub open spec fn answers(self, events: Seq<EventView>) -> Seq<CallActionView>
        decreases events.len(),
    {
        if events.len() == 0 {
            Seq::empty()
        } else {
            let (next, action) = self.step_spec(events[0]);
            seq![action] + next.answers(events.drop_first())
        }
    }

    /// Every action of a call with `body` under `policy` as `events` arrive
    /// in order, the first action included.
    pub open spec fn run(body: Seq<u8>, policy: ReplyPolicy, events: Seq<EventView>) -> Seq<
        CallActionView,
    > {
        let (call, first) = Self::begin(body, policy);
        seq![first] + call.answers(events)
    }

    /// The call given up: over, with no connection.
    pub open spec fn abandoned(self) -> CallView {
        CallView { connection: Connection::absent(), phase: CallPhase::Done, ..self }
    }

    /// What holds of a call at every point of its life: a connection is
    /// live from the connect to the end of the call and at no other time,
    /// and a request is outstanding on it exactly during the wait.
    pub open spec fn consistent(self) -> bool {
        match self.phase {
            CallPhase::Connecting => self.connection == Connection::absent(),
            CallPhase::Sending => self.connection == Connection::established(),
            CallPhase::Waiting(_) => self.connection == Connection::established().after_send(),
            CallPhase::Done => self.connection == Connection::absent(),
        }
    }
}

impl Call {
    /// Starts a call with `body` under `policy`.  The first action is to
    /// connect: every call has a backend connection of its own.
    pub fn begin(body: Vec<u8>, policy: ReplyPolicy) -> (r: (Call, CallAction))
        ensures
            (r.0@, r.1@) == CallView::begin(body@, policy),
    {
        (
            Call { policy, connection: Connection::none(), phase: CallPhase::Connecting, body },
            CallAction::Backend(Command::Connect),
        )
    }

    /// Whether the call has been answered.
    pub fn is_done(&self) -> (b: bool)
        ensures
            b == (self.phase == CallPhase::Done),
    {
        matches!(self.phase, CallPhase::Done)
    }

    /// Gives the call up, as when the caller went away before it was
    /// answered.  Says whether a backend socket is left to close.  A reply
    /// that was still owed is not waited for.
    pub fn abandon(&mut self) -> (close: bool)
        ensures
            final(self)@ == old(self)@.abandoned(),
            close == old(self).connection.live,
    {
        let close = self.connection.live;
        self.connection.close();
        self.phase = CallPhase::Done;
        close
    }

    fn finish(&mut self, reply: Result<Option<Vec<u8>>, ConnectionError>) -> (action: CallAction)
        ensures
            (final(self)@, action@) == old(self)@.finish(reply_view(reply)),
    {
        let close = self.connection.live;
        self.connection.close();
        self.phase = CallPhase::Done;
        CallAction::Finish { close, response: respond(reply) }
    }

    fn wait_on(&mut self, wait: ReplyWait, step: WaitStep) -> (action: CallAction)
        ensures
            (final(self)@, action@) == old(self)@.wait_on(wait, step@),
    {
        match step {
            WaitStep::Issue(command) => {
                self.phase = CallPhase::Waiting(wait);
                CallAction::Backend(command)
            },
            WaitStep::Done(reply) => self.finish(reply),
            WaitStep::Ignored => CallAction::Ignored,
        }
    }

    /// Takes the report of the outstanding command and gives the next
    /// action.
    pub fn step(&mut self, event: Event) -> (action: CallAction)
        ensures
            (final(self)@, action@) == old(self)@.step_spec(event@),
    {
        match (self.phase, event) {
            (CallPhase::Connecting, Event::Connected(Ok(_))) => {
                let mut body: Vec<u8> = Vec::new();
                core::mem::swap(&mut self.body, &mut body);
                self.connection = Connection::open();
                self.phase = CallPhase::Sending;
                CallAction::Backend(send(body))
            },
            (CallPhase::Connecting, Event::Connected(Err(code))) => self.finish(
                Err(ConnectionError::Socket { code }),
            ),
            (CallPhase::Sending, Event::Sent(report)) => match sent(report) {
                Ok(_) => {
                    let (wait, first) = ReplyWait::begin(self.policy);
                    self.connection.request_sent();
                    self.wait_on(wait, first)
                },
                Err(e) => self.finish(Err(e)),
            },
            (CallPhase::Waiting(wait), event) => {
                let mut wait = wait;
                let step = wait.step(event);
                self.wait_on(wait, step)
            },
            _ => CallAction::Ignored,
        }
    }
}

/// The action that a call makes of a step of its wait, on a connection that
/// is to be closed at the end where `close` is set.
pub open spec fn lifted(close: bool, step: WaitStepView) -> CallActionView {
    match step {
        WaitStepView::Issue(command) => CallActionView::Backend(command),
        WaitStepView::Done(reply) => CallActionView::Finish {
            close,
            response: respond_spec(reply),
        },
        WaitStepView::Ignored => CallActionView::Ignored,
    }
}

/// The answers to events that arrive one after the other are the answers to
/// the first ones, followed by the answers that the call then gives to the
/// others.
pub proof fn lemma_answers_in_turn(call: CallView, first: Seq<EventView>, then: Seq<EventView>)
    ensures
        call.answers(first + then) == call.answers(first) + call.after(first).answers(then),
        call.after(first + then) == call.after(first).after(then),
    decreases first.len(),
{
    if first.len() > 0 {
        assert((first + then).drop_first() =~= first.drop_first() + then);
        lemma_answers_in_turn(call.step_spec(first[0]).0, first.drop_first(), then);
    }
}

/// During its wait a call does what the wait does: each command that the
/// wait issues goes to the backend, and the result of the wait ends the
/// call.  Once the wait is over, neither answers anything.
pub proof fn lemma_call_follows_wait(call: CallView, wait: ReplyWait, events: Seq<EventView>)
    requires
        call.phase == CallPhase::Waiting(wait) || (call.phase == CallPhase::Done && wait.phase
            == WaitPhase::Finished),
    ensures
        call.answers(events).len() == events.len(),
        wait.answers(events).len() == events.len(),
        forall|i: int|
            0 <= i < events.len() ==> #[trigger] call.answers(events)[i] == lifted(
                call.connection.live,
                wait.answers(events)[i],
            ),
        wait.phase == WaitPhase::Finished ==> forall|i: int|
            0 <= i < events.len() ==> #[trigger] wait.answers(events)[i] == WaitStepView::Ignored,
    decreases events.len(),
{
    if events.len() > 0 {
        let rest = events.drop_first();
        let next_wait = wait.step_spec(events[0]).0;
        let next_call = call.step_spec(events[0]).0;
        lemma_call_follows_wait(next_call, next_wait, rest);
        assert forall|i: int| 0 < i < events.len() implies #[trigger] call.answers(events)[i]
            == lifted(call.connection.live, wait.answers(events)[i]) by {
            assert(call.answers(events)[i] == next_call.answers(rest)[i - 1]);
            assert(wait.answers(events)[i] == next_wait.answers(rest)[i - 1]);
        }
        if wait.phase == WaitPhase::Finished {
            assert forall|i: int| 0 < i < events.len() implies #[trigger] wait.answers(events)[i]
                == WaitStepView::Ignored by {
                assert(wait.answers(events)[i] == next_wait.answers(rest)[i - 1]);
            }
        }
    }
}

/// `n` polls of `timeout_ms` milliseconds each, as actions of a call.
pub open spec fn polls(n: nat, timeout_ms: u64) -> Seq<CallActionView> {
    Seq::new(n, |i: int| CallActionView::Backend(CommandView::Poll { timeout_ms }))
}

/// The events of a connect and a transmission that both went through.
pub open spec fn request_went_out() -> Seq<EventView> {
    seq![EventView::Connected(Ok(())), EventView::Sent(Ok(()))]
}

/// A call under a policy of at least one attempt, once its request went
/// out, has connected, sent its body as one envelope and issued its first
/// poll, and waits.
proof fn lemma_request_goes_out(body: Seq<u8>, policy: ReplyPolicy)
    requires
        policy.max_attempts > 0,
    ensures
        CallView::begin(body, policy).0.answers(request_went_out()) == seq![
            CallActionView::Backend(CommandView::Transmit { parts: sealed(body) }),
            CallActionView::Backend(CommandView::Poll { timeout_ms: policy.attempt_timeout_ms }),
        ],
        CallView::begin(body, policy).0.after(request_went_out()) == (CallView {
            policy,
            connection: Connection::established().after_send(),
            phase: CallPhase::Waiting(ReplyWait::begin_spec(policy).0),
            body: Seq::empty(),
        }),
{
    let call = CallView::begin(body, policy).0;
    let events = request_went_out();
    let sending = call.step_spec(events[0]).0;
    let rest = events.drop_first();
    let (waiting, poll) = sending.step_spec(rest[0]);
    assert(waiting.answers(rest.drop_first()) =~= Seq::empty());
    assert(sending.answers(rest) =~= seq![poll]);
    assert(waiting.after(rest.drop_first()) == waiting);
    assert(sending.after(rest) == waiting);
}

/// The cycle of a call that is answered.  The call connects, sends its body
/// as one envelope, polls until data is there, receives, closes the
/// connection and responds with what the receive yields: the payload of the
/// reply as the body of a success, or service-unavailable where the receive
/// failed or the message was no envelope.
pub proof fn law_call_with_reply(
    body: Seq<u8>,
    policy: ReplyPolicy,
    quiet: nat,
    signalled: i32,
    received: Result<Option<Seq<Seq<u8>>>, i32>,
)
    requires
        quiet < policy.max_attempts,
        signalled != 0,
    ensures
        CallView::run(
            body,
            policy,
            request_went_out() + (silence(quiet) + seq![
                EventView::Polled(Ok(signalled)),
                EventView::Received(received),
            ]),
        ) == seq![
            CallActionView::Backend(CommandView::Connect),
            CallActionView::Backend(CommandView::Transmit { parts: sealed(body) }),
        ] + polls(quiet + 1, policy.attempt_timeout_ms) + seq![
            CallActionView::Backend(CommandView::Receive),
            CallActionView::Finish {
                close: true,
                response: respond_spec(try_receive_spec(received)),
            },
        ],
{
    let (call, connect) = CallView::begin(body, policy);
    let (wait, first) = ReplyWait::begin_spec(policy);
    let events = silence(quiet) + seq![
        EventView::Polled(Ok(signalled)),
        EventView::Received(received),
    ];
    lemma_request_goes_out(body, policy);
    lemma_answers_in_turn(call, request_went_out(), events);
    let waiting = call.after(request_went_out());
    lemma_call_follows_wait(waiting, wait, events);
    law_reply_ends_wait(policy, quiet, signalled, received);
    let steps = seq![first] + wait.answers(events);
    let actions = seq![connect] + (call.answers(request_went_out()) + waiting.answers(events));
    assert forall|i: int| 3 <= i < actions.len() implies actions[i] == lifted(
        true,
        steps[i - 2],
    ) by {
        assert(wait.answers(events)[i - 3] == steps[i - 2]);
    }
}

/// The cycle of a call that is not answered.  The call connects, sends its
/// body as one envelope, spends every poll that the policy allows, closes
/// the connection and responds with a success whose body is empty.
pub proof fn law_call_without_reply(body: Seq<u8>, policy: ReplyPolicy)
    ensures
        CallView::run(
            body,
            policy,
            request_went_out() + silence(policy.max_attempts as nat),
        ) == seq![
            CallActionView::Backend(CommandView::Connect),
            CallActionView::Backend(CommandView::Transmit { parts: sealed(body) }),
        ] + polls(policy.max_attempts as nat, policy.attempt_timeout_ms) + seq![
            CallActionView::Finish {
                close: true,
                response: ResponseView { status: Status::Success, body: Seq::empty() },
            },
        ],
{
    let (call, connect) = CallView::begin(body, policy);
    let (wait, first) = ReplyWait::begin_spec(policy);
    let events = silence(policy.max_attempts as nat);
    lemma_answers_in_turn(call, request_went_out(), events);
    if policy.max_attempts == 0 {
        let all = request_went_out();
        let sending = call.step_spec(all[0]).0;
        let rest = all.drop_first();
        let (done, finish) = sending.step_spec(rest[0]);
        assert(done.answers(rest.drop_first()) =~= Seq::empty());
        assert(sending.answers(rest) =~= seq![finish]);
    } else {
        lemma_request_goes_out(body, policy);
        let waiting = call.after(request_went_out());
        lemma_call_follows_wait(waiting, wait, events);
        law_silence_exhausts_wait(policy);
        let steps = seq![first] + wait.answers(events);
        let actions = seq![connect] + (call.answers(request_went_out()) + waiting.answers(
            events,
        ));
        assert forall|i: int| 3 <= i < actions.len() implies actions[i] == lifted(
            true,
            steps[i - 2],
        ) by {
            assert(wait.answers(events)[i - 3] == steps[i - 2]);
        }
    }
}

/// A backend that cannot be reached makes the call service-unavailable.
/// Whatever the body, the policy and the error number, a call whose connect
/// fails ends at once: nothing is sent, no socket is left to close, and the
/// caller gets the service-unavailable response, whose body is the
/// diagnostic and not empty.  The same response answers every other
/// connection error.
pub proof fn law_connect_failure_is_service_unavailable(
    body: Seq<u8>,
    policy: ReplyPolicy,
    code: i32,
)
    ensures
        CallView::run(body, policy, seq![EventView::Connected(Err(code))]) == seq![
            CallActionView::Backend(CommandView::Connect),
            CallActionView::Finish {
                close: false,
                response: ResponseView { status: Status::ServiceUnavailable, body: diagnostic() },
            },
        ],
        diagnostic().len() > 0,
        forall|e: ConnectionError| #[trigger]
            respond_spec(Err(e)) == (ResponseView {
                status: Status::ServiceUnavailable,
                body: diagnostic(),
            }),
{
    lemma_diagnostic_not_empty();
    let call = CallView::begin(body, policy).0;
    let events = seq![EventView::Connected(Err(code))];
    assert(call.step_spec(events[0]).0.answers(events.drop_first()) =~= Seq::empty());
}

/// Whether `event` reports a failure of the backend to a call in `phase`:
/// a connect, a transmission, a poll or a receive that failed, or a message
/// that is no envelope.
pub open spec fn backend_failed(phase: CallPhase, event: EventView) -> bool {
    match (phase, event) {
        (CallPhase::Connecting, EventView::Connected(report)) => report is Err,
        (CallPhase::Sending, EventView::Sent(report)) => report is Err,
        (CallPhase::Waiting(wait), EventView::Polled(report)) => wait.phase == WaitPhase::Polling
            && report is Err,
        (CallPhase::Waiting(wait), EventView::Received(report)) => wait.phase
            == WaitPhase::Receiving && try_receive_spec(report) is Err,
        _ => false,
    }
}

/// A call is service-unavailable exactly when the backend failed.  Each
/// failure of the backend ends the call at once with the service-unavailable
/// response and its diagnostic body, and nothing else does: silence and
/// replies of any content end it as a success.
pub proof fn law_service_unavailable_iff_backend_failed(call: CallView, event: EventView)
    ensures
        ({
            let action = call.step_spec(event).1;
            let unavailable = ResponseView {
                status: Status::ServiceUnavailable,
                body: diagnostic(),
            };
            &&& backend_failed(call.phase, event) ==> action == (CallActionView::Finish {
                close: call.connection.live,
                response: unavailable,
            })
            &&& !backend_failed(call.phase, event) ==> (action matches CallActionView::Finish {
                response,
                ..
            } ==> response.status == Status::Success)
        }),
{
}

/// A reply of zero bytes and no reply at all are answered alike: with a
/// success whose body is empty.
pub proof fn law_empty_reply_equals_no_reply(
    body: Seq<u8>,
    policy: ReplyPolicy,
    quiet: nat,
    signalled: i32,
    delimiter: Seq<u8>,
)
    requires
        quiet < policy.max_attempts,
        signalled != 0,
    ensures
        respond_spec(Ok(Some(Seq::empty()))) == respond_spec(Ok(None)),
        respond_spec(Ok(None)) == (ResponseView { status: Status::Success, body: Seq::empty() }),
        CallView::run(
            body,
            policy,
            request_went_out() + (silence(quiet) + seq![
                EventView::Polled(Ok(signalled)),
                EventView::Received(Ok(Some(seq![delimiter, Seq::empty()]))),
            ]),
        ).last() == CallView::run(
            body,
            policy,
            request_went_out() + silence(policy.max_attempts as nat),
        ).last(),
{
    law_call_with_reply(
        body,
        policy,
        quiet,
        signalled,
        Ok(Some(seq![delimiter, Seq::<u8>::empty()])),
    );
    law_call_without_reply(body, policy);
}

/// Whether `action` transmits a request.
pub open spec fn is_transmit(action: CallActionView) -> bool {
    action matches CallActionView::Backend(CommandView::Transmit { .. })
}

/// The number of transmissions among `actions`.
pub open spec fn transmits_in(actions: Seq<CallActionView>) -> nat
    decreases actions.len(),
{
    if actions.len() == 0 {
        0
    } else if is_transmit(actions[0]) {
        1 + transmits_in(actions.drop_first())
    } else {
        transmits_in(actions.drop_first())
    }
}

/// A call has one request.  Whatever the backend reports, a call transmits
/// at most once, and only before it has sent anything: no second request
/// ever goes out on its connection while the reply to the first is owed.
pub proof fn law_call_sends_once(call: CallView, events: Seq<EventView>)
    ensures
        transmits_in(call.answers(events)) <= 1,
        call.phase != CallPhase::Connecting ==> transmits_in(call.answers(events)) == 0,
    decreases events.len(),
{
    if events.len() > 0 {
        let next = call.step_spec(events[0]).0;
        law_call_sends_once(next, events.drop_first());
        assert(call.answers(events).drop_first() =~= next.answers(events.drop_first()));
    }
}

/// A call asks nothing of a socket that is not there.  A call is consistent
/// when it begins and after every step.  Each command that it issues in
/// answer to a report finds a live connection, and at its end the call has
/// the socket closed exactly where it had one.
pub proof fn law_call_stays_consistent(call: CallView, event: EventView)
    requires
        call.consistent(),
    ensures
        CallView::begin(call.body, call.policy).0.consistent(),
        ({
            let (next, action) = call.step_spec(event);
            &&& next.consistent()
            &&& action is Backend ==> next.connection.live
            &&& action matches CallActionView::Finish { close, .. } ==> {
                &&& close == call.connection.live
                &&& !next.connection.live
            }
        }),
{
}

/// However events arrive, a call stays consistent.
pub proof fn lemma_call_stays_consistent(call: CallView, events: Seq<EventView>)
    requires
        call.consistent(),
    ensures
        call.after(events).consistent(),
    decreases events.len(),
{
    if events.len() > 0 {
        law_call_stays_consistent(call, events[0]);
        lemma_call_stays_consistent(call.step_spec(events[0]).0, events.drop_first());
    }
}

/// Calls are isolated.  Each call starts with no connection and by
/// connecting, whatever went before it: no call uses the connection of
/// another.  And whatever a call went through, failure included, once it is
/// over it holds no live connection, and it answers no further event: nothing
/// of it is left for a later call to meet.
pub proof fn law_calls_are_isolated(
    earlier_body: Seq<u8>,
    earlier_policy: ReplyPolicy,
    earlier_events: Seq<EventView>,
    body: Seq<u8>,
    policy: ReplyPolicy,
    event: EventView,
)
    ensures
        ({
            let earlier = CallView::begin(earlier_body, earlier_policy).0.after(earlier_events);
            earlier.phase == CallPhase::Done ==> {
                &&& earlier.connection == Connection::absent()
                &&& earlier.step_spec(event) == (earlier, CallActionView::Ignored)
            }
        }),
        CallView::begin(body, policy) == (
            CallView {
                policy,
                connection: Connection::absent(),
                phase: CallPhase::Connecting,
                body,
            },
            CallActionView::Backend(CommandView::Connect),
        ),
{
    lemma_call_stays_consistent(
        CallView::begin(earlier_body, earlier_policy).0,
        earlier_events,
    );
}

} // verus!
