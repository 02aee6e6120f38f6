//! How often and how long to wait for a reply.

use vstd::prelude::*;

verus! {

/// The budget of one wait for a reply: the number of readiness waits and the
/// length of each.
#[derive(Clone, Copy, Debug, PartialEq, Eq, Structural)]
pub struct ReplyPolicy {
    /// How many times the socket is polled before the wait gives up.
    pub max_attempts: u32,
    /// How long each poll may block, in milliseconds.
    pub attempt_timeout_ms: u64,
}

impl ReplyPolicy {
    /// The longest that a wait under this policy can block, in milliseconds.
    pub open spec fn budget_ms(self) -> nat {
        (self.max_attempts * self.attempt_timeout_ms) as nat
    }

    /// A policy of `max_attempts` polls of `attempt_timeout_ms` each.
    pub fn new(max_attempts: u32, attempt_timeout_ms: u64) -> (policy: ReplyPolicy)
        ensures
            policy == (ReplyPolicy { max_attempts, attempt_timeout_ms }),
    {
        ReplyPolicy { max_attempts, attempt_timeout_ms }
    }

    /// The policy of a one-shot call: ten polls of one second each.
    pub fn stateless() -> (policy: ReplyPolicy)
        ensures
            policy == (ReplyPolicy { max_attempts: 10, attempt_timeout_ms: 1000 }),
    {
        ReplyPolicy { max_attempts: 10, attempt_timeout_ms: 1000 }
    }

    /// The policy of a session, where the caller sets the pace by polling: a
    /// single poll of ten seconds.
    pub fn session() -> (policy: ReplyPolicy)
        ensures
            policy == (ReplyPolicy { max_attempts: 1, attempt_timeout_ms: 10000 }),
    {
        ReplyPolicy { max_attempts: 1, attempt_timeout_ms: 10000 }
    }

    /// The longest that a wait under this policy can block, in milliseconds.
    pub fn worst_case_ms(&self) -> (ms: u128)
        ensures
            ms == self.budget_ms(),
    {
        let attempts: u128 = self.max_attempts as u128;
        let timeout: u128 = self.attempt_timeout_ms as u128;
        assert(attempts * timeout <= 0xffff_ffff * 0xffff_ffff_ffff_ffff) by (nonlinear_arith)
            requires
                0 <= attempts <= 0xffff_ffff,
                0 <= timeout <= 0xffff_ffff_ffff_ffff,
        ;
        attempts * timeout
    }
}

} // verus!
