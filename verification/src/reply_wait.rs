//! The bounded wait for a reply.
//!
//! After a request went out, the gateway polls the socket up to a number of
//! times.  The first poll that finds data ends the wait: the message is
//! received and its payload is the reply.  When every poll has run out of
//! time the wait ends with no reply, which is an ordinary outcome and no
//! error: the backend may be a consumer that never answers.

use vstd::prelude::*;
use crate::backend::{
    poll_ready, poll_ready_spec, reply_view, try_receive, try_receive_spec, Command, CommandView,
    Event, EventView,
};
use crate::error::ConnectionError;
use crate::policy::ReplyPolicy;

verus! {

/// Where a wait stands.
#[derive(Clone, Copy, Debug, PartialEq, Eq, Structural)]
pub enum WaitPhase {
    /// A poll is outstanding.
    Polling,
    /// A poll found data and the receive is outstanding.
    Receiving,
    /// The wait is over.
    Finished,
}

/// One wait for a reply.
#[derive(Clone, Copy, Debug, PartialEq, Eq, Structural)]
pub struct ReplyWait {
    /// How long each poll may block, in milliseconds.
    pub attempt_timeout_ms: u64,
    /// How many polls the wait may still spend, the outstanding one included.
    pub remaining: u32,
    /// Where the wait stands.
    pub phase: WaitPhase,
}

/// What a wait asks for next.
#[derive(Debug, PartialEq, Eq)]
pub enum WaitStep {
    /// Perform this command and report its outcome.
    Issue(Command),
    /// The wait is over: the reply, `None` where none came in time, or the
    /// error that ended the wait.
    Done(Result<Option<Vec<u8>>, ConnectionError>),
    /// The event answers no outstanding command.  Nothing has changed.
    Ignored,
}

/// A [`WaitStep`] over sequences of bytes.
pub enum WaitStepView {
    Issue(CommandView),
    Done(Result<Option<Seq<u8>>, ConnectionError>),
    Ignored,
}

impl View for WaitStep {
    type V = WaitStepView;

    open spec fn view(&self) -> WaitStepView {
        match *self {
            WaitStep::Issue(command) => WaitStepView::Issue(command@),
            WaitStep::Done(reply) => WaitStepView::Done(reply_view(reply)),
            WaitStep::Ignored => WaitStepView::Ignored,
        }
    }
}

impl ReplyWait {
    /// The poll that this wait issues.
    pub open spec fn poll(self) -> WaitStepView {
        WaitStepView::Issue(CommandView::Poll { timeout_ms: self.attempt_timeout_ms })
    }

    /// A wait under `policy` and its first step.  A policy of no attempts
    /// ends the wait at once, with no reply.
    pub open spec fn begin_spec(policy: ReplyPolicy) -> (ReplyWait, WaitStepView) {
        let wait = ReplyWait {
            attempt_timeout_ms: policy.attempt_timeout_ms,
            remaining: policy.max_attempts,
            phase: if policy.max_attempts == 0 {
                WaitPhase::Finished
            } else {
                WaitPhase::Polling
            },
        };
        (
            wait,
            if policy.max_attempts == 0 {
                WaitStepView::Done(Ok(None))
            } else {
                wait.poll()
            },
        )
    }

    /// The wait after `event`, and the step it answers with.
    ///
    /// * While polling, a poll that found data leads to the receive; one that
    ///   ran out of time leads to the next poll, or to the end of the wait
    ///   with no reply where it was the last; one that failed ends the wait
    ///   with its error.
    /// * While receiving, the report of the receive ends the wait with what
    ///   [`try_receive_spec`] makes of it.
    /// * Any other event is ignored.
    pub open spec fn step_spec(self, event: EventView) -> (ReplyWait, WaitStepView) {
        match (self.phase, event) {
            (WaitPhase::Polling, EventView::Polled(report)) => match poll_ready_spec(report) {
                Ok(true) => (
                    ReplyWait { phase: WaitPhase::Receiving, ..self },
                    WaitStepView::Issue(CommandView::Receive),
                ),
                Ok(false) => if self.remaining <= 1 {
                    (
                        ReplyWait { remaining: 0, phase: WaitPhase::Finished, ..self },
                        WaitStepView::Done(Ok(None)),
                    )
                } else {
                    (ReplyWait { remaining: (self.remaining - 1) as u32, ..self }, self.poll())
                },
                Err(e) => (
                    ReplyWait { phase: WaitPhase::Finished, ..self },
                    WaitStepView::Done(Err(e)),
                ),
            },
            (WaitPhase::Receiving, EventView::Received(report)) => (
                ReplyWait { phase: WaitPhase::Finished, ..self },
                WaitStepView::Done(try_receive_spec(report)),
            ),
            _ => (self, WaitStepView::Ignored),
        }
    }

    /// The steps that the wait answers with as `events` arrive in order.
    pub open spec fn answers(self, events: Seq<EventView>) -> Seq<WaitStepView>
        decreases events.len(),
    {
        if events.len() == 0 {
            Seq::empty()
        } else {
            let (next, step) = self.step_spec(events[0]);
            seq![step] + next.answers(events.drop_first())
        }
    }

    /// Every step of a wait under `policy` as `events` arrive in order, the
    /// first step included.
    pub open spec fn await_reply_spec(policy: ReplyPolicy, events: Seq<EventView>) -> Seq<
        WaitStepView,
    > {
        let (wait, first) = Self::begin_spec(policy);
        seq![first] + wait.answers(events)
    }

    /// Starts a wait under `policy` and gives its first step.
    pub fn begin(policy: ReplyPolicy) -> (r: (ReplyWait, WaitStep))
        ensures
            (r.0, r.1@) == Self::begin_spec(policy),
    {
        if policy.max_attempts == 0 {
            (
                ReplyWait {
                    attempt_timeout_ms: policy.attempt_timeout_ms,
                    remaining: 0,
                    phase: WaitPhase::Finished,
                },
                WaitStep::Done(Ok(None)),
            )
        } else {
            (
                ReplyWait {
                    attempt_timeout_ms: policy.attempt_timeout_ms,
                    remaining: policy.max_attempts,
                    phase: WaitPhase::Polling,
                },
                WaitStep::Issue(Command::Poll { timeout_ms: policy.attempt_timeout_ms }),
            )
        }
    }

    /// Takes the report of the outstanding command and gives the next step.
    pub fn step(&mut self, event: Event) -> (step: WaitStep)
        ensures
            (*final(self), step@) == old(self).step_spec(event@),
    {
        match (self.phase, event) {
            (WaitPhase::Polling, Event::Polled(report)) => match poll_ready(report) {
                Ok(true) => {
                    self.phase = WaitPhase::Receiving;
                    WaitStep::Issue(Command::Receive)
                },
                Ok(false) => {
                    if self.remaining <= 1 {
                        self.remaining = 0;
                        self.phase = WaitPhase::Finished;
                        WaitStep::Done(Ok(None))
                    } else {
                        self.remaining = self.remaining - 1;
                        WaitStep::Issue(Command::Poll { timeout_ms: self.attempt_timeout_ms })
                    }
                },
                Err(e) => {
                    self.phase = WaitPhase::Finished;
                    WaitStep::Done(Err(e))
                },
            },
            (WaitPhase::Receiving, Event::Received(report)) => {
                self.phase = WaitPhase::Finished;
                WaitStep::Done(try_receive(report))
            },
            _ => WaitStep::Ignored,
        }
    }
}

/// `n` polls of `timeout_ms` milliseconds each, as steps of a wait.
pub open spec fn polls(n: nat, timeout_ms: u64) -> Seq<WaitStepView> {
    Seq::new(n, |i: int| WaitStepView::Issue(CommandView::Poll { timeout_ms }))
}

/// The reports of `n` polls that each ran out of time.
pub open spec fn silence(n: nat) -> Seq<EventView> {
    Seq::new(n, |i: int| EventView::Polled(Ok(0)))
}

/// While more polls remain than run out of time, each of them is answered
/// with the next poll, and the wait goes on with that many polls fewer.
pub proof fn lemma_silence_keeps_polling(wait: ReplyWait, quiet: nat, rest: Seq<EventView>)
    requires
        wait.phase == WaitPhase::Polling,
        quiet < wait.remaining,
    ensures
        wait.answers(silence(quiet) + rest) == polls(quiet, wait.attempt_timeout_ms) + (ReplyWait {
            remaining: (wait.remaining - quiet) as u32,
            ..wait
        }).answers(rest),
    decreases quiet,
{
    if quiet > 0 {
        let next = ReplyWait { remaining: (wait.remaining - 1) as u32, ..wait };
        let fewer = (quiet - 1) as nat;
        assert((silence(quiet) + rest).drop_first() =~= silence(fewer) + rest);
        lemma_silence_keeps_polling(next, fewer, rest);
    }
}

/// A reply ends the wait at once.  When the first `quiet` polls run out of
/// time and the next one finds data, the wait has issued `quiet + 1` polls,
/// receives, and ends with what the receive yields; none of the attempts
/// that the policy still allows is spent.
pub proof fn law_reply_ends_wait(
    policy: ReplyPolicy,
    quiet: nat,
    signalled: i32,
    received: Result<Option<Seq<Seq<u8>>>, i32>,
)
    requires
        quiet < policy.max_attempts,
        signalled != 0,
    ensures
        ReplyWait::await_reply_spec(
            policy,
            silence(quiet) + seq![EventView::Polled(Ok(signalled)), EventView::Received(received)],
        ) == polls(quiet + 1, policy.attempt_timeout_ms) + seq![
            WaitStepView::Issue(CommandView::Receive),
            WaitStepView::Done(try_receive_spec(received)),
        ],
{
    let wait = ReplyWait::begin_spec(policy).0;
    let rest = seq![EventView::Polled(Ok(signalled)), EventView::Received(received)];
    lemma_silence_keeps_polling(wait, quiet, rest);
    let ready = ReplyWait { remaining: (wait.remaining - quiet) as u32, ..wait };
    let receiving = ReplyWait { phase: WaitPhase::Receiving, ..ready };
    let finished = ReplyWait { phase: WaitPhase::Finished, ..ready };
    let last = rest.drop_first();
    assert(finished.answers(last.drop_first()) =~= Seq::empty());
    assert(receiving.answers(last) =~= seq![WaitStepView::Done(try_receive_spec(received))]);
    assert(ready.answers(rest) =~= seq![
        WaitStepView::Issue(CommandView::Receive),
        WaitStepView::Done(try_receive_spec(received)),
    ]);
}

/// A failure ends the wait at once.  When the first `quiet` polls run out
/// of time and the next one fails, the wait has issued `quiet + 1` polls and
/// ends with the error of the socket; nothing is received.
pub proof fn law_failure_ends_wait(policy: ReplyPolicy, quiet: nat, code: i32)
    requires
        quiet < policy.max_attempts,
    ensures
        ReplyWait::await_reply_spec(policy, silence(quiet) + seq![EventView::Polled(Err(code))])
            == polls(quiet + 1, policy.attempt_timeout_ms) + seq![
            WaitStepView::Done(Err(ConnectionError::Socket { code })),
        ],
{
    let wait = ReplyWait::begin_spec(policy).0;
    let rest = seq![EventView::Polled(Err(code))];
    lemma_silence_keeps_polling(wait, quiet, rest);
    let failing = ReplyWait { remaining: (wait.remaining - quiet) as u32, ..wait };
    let finished = ReplyWait { phase: WaitPhase::Finished, ..failing };
    assert(finished.answers(rest.drop_first()) =~= Seq::empty());
    assert(failing.answers(rest) =~= seq![
        WaitStepView::Done(Err(ConnectionError::Socket { code })),
    ]);
}

/// Silence exhausts the wait.  When every poll that the policy allows runs
/// out of time, the wait has issued exactly that many polls and ends with no
/// reply and no error.
pub proof fn law_silence_exhausts_wait(policy: ReplyPolicy)
    ensures
        ReplyWait::await_reply_spec(policy, silence(policy.max_attempts as nat)) == polls(
            policy.max_attempts as nat,
            policy.attempt_timeout_ms,
        ) + seq![WaitStepView::Done(Ok(None))],
{
    let wait = ReplyWait::begin_spec(policy).0;
    let attempts = policy.max_attempts as nat;
    if attempts > 0 {
        let quiet = (attempts - 1) as nat;
        let rest = seq![EventView::Polled(Ok(0))];
        assert(silence(attempts) =~= silence(quiet) + rest);
        lemma_silence_keeps_polling(wait, quiet, rest);
        let last = ReplyWait { remaining: 1, ..wait };
        let finished = ReplyWait { remaining: 0, phase: WaitPhase::Finished, ..wait };
        assert(finished.answers(rest.drop_first()) =~= Seq::empty());
        assert(last.answers(rest) =~= seq![WaitStepView::Done(Ok(None))]);
    }
}

/// Whether `step` issues a poll.
pub open spec fn is_poll(step: WaitStepView) -> bool {
    step matches WaitStepView::Issue(CommandView::Poll { .. })
}

/// The number of polls among `steps`.
pub open spec fn polls_in(steps: Seq<WaitStepView>) -> nat
    decreases steps.len(),
{
    if steps.len() == 0 {
        0
    } else if is_poll(steps[0]) {
        1 + polls_in(steps.drop_first())
    } else {
        polls_in(steps.drop_first())
    }
}

/// Whatever arrives, a wait issues fewer polls than it has left, the
/// outstanding one being spent already, and each of them with its own
/// timeout.
pub proof fn lemma_polls_left(wait: ReplyWait, events: Seq<EventView>)
    ensures
        wait.answers(events).len() == events.len(),
        wait.phase == WaitPhase::Polling && wait.remaining > 0 ==> polls_in(wait.answers(events))
            <= wait.remaining - 1,
        !(wait.phase == WaitPhase::Polling && wait.remaining > 0) ==> polls_in(
            wait.answers(events),
        ) == 0,
        forall|i: int|
            0 <= i < events.len() && is_poll(#[trigger] wait.answers(events)[i])
                ==> wait.answers(events)[i] == wait.poll(),
    decreases events.len(),
{
    if events.len() > 0 {
        let rest = events.drop_first();
        let next = wait.step_spec(events[0]).0;
        lemma_polls_left(next, rest);
        assert(wait.answers(events).drop_first() =~= next.answers(rest));
    }
}

/// A wait is bounded.  Whatever the backend reports, a wait issues no more
/// polls than its policy allows, each for no longer than the policy says:
/// the time that a wait can block is within the budget of its policy.
pub proof fn law_wait_is_bounded(policy: ReplyPolicy, events: Seq<EventView>)
    ensures
        polls_in(ReplyWait::await_reply_spec(policy, events)) <= policy.max_attempts,
        forall|i: int|
            0 <= i <= events.len() && is_poll(
                #[trigger] ReplyWait::await_reply_spec(policy, events)[i],
            ) ==> ReplyWait::await_reply_spec(policy, events)[i] == WaitStepView::Issue(
                CommandView::Poll { timeout_ms: policy.attempt_timeout_ms },
            ),
        polls_in(ReplyWait::await_reply_spec(policy, events)) * policy.attempt_timeout_ms
            <= policy.budget_ms(),
{
    let wait = ReplyWait::begin_spec(policy).0;
    let steps = ReplyWait::await_reply_spec(policy, events);
    lemma_polls_left(wait, events);
    assert(steps.drop_first() =~= wait.answers(events));
    let polls = polls_in(steps);
    assert(polls * policy.attempt_timeout_ms <= policy.max_attempts * policy.attempt_timeout_ms)
        by (nonlinear_arith)
        requires
            0 <= polls <= policy.max_attempts,
            0 <= policy.attempt_timeout_ms,
    ;
}

} // verus!
