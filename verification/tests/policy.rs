use reqrep_gateway::connection::{Connection, Pending};
use reqrep_gateway::policy::ReplyPolicy;

#[test]
fn the_stateless_policy_is_ten_polls_of_one_second() {
    let policy = ReplyPolicy::stateless();
    assert_eq!(policy.max_attempts, 10);
    assert_eq!(policy.attempt_timeout_ms, 1000);
    assert_eq!(policy.worst_case_ms(), 10_000);
}

#[test]
fn the_session_policy_is_one_poll_of_ten_seconds() {
    let policy = ReplyPolicy::session();
    assert_eq!(policy.max_attempts, 1);
    assert_eq!(policy.attempt_timeout_ms, 10_000);
    assert_eq!(policy.worst_case_ms(), 10_000);
}

#[test]
fn a_policy_holds_what_it_was_made_with() {
    let policy = ReplyPolicy::new(7, 250);
    assert_eq!(policy, ReplyPolicy { max_attempts: 7, attempt_timeout_ms: 250 });
    assert_eq!(policy.worst_case_ms(), 1750);
}

#[test]
fn the_worst_case_of_no_attempts_or_no_time_is_zero() {
    assert_eq!(ReplyPolicy::new(0, 1000).worst_case_ms(), 0);
    assert_eq!(ReplyPolicy::new(10, 0).worst_case_ms(), 0);
}

#[test]
fn the_worst_case_does_not_overflow() {
    let policy = ReplyPolicy::new(u32::MAX, u64::MAX);
    assert_eq!(policy.worst_case_ms(), 4294967295u128 * 18446744073709551615u128);
    assert_eq!(policy.worst_case_ms(), 79228162495817593515539431425u128);
}

#[test]
fn a_connection_starts_absent() {
    let c = Connection::none();
    assert_eq!(c, Connection { live: false, pending: Pending::Idle });
    assert!(!c.can_send());
}

#[test]
fn an_open_connection_may_send() {
    let c = Connection::open();
    assert_eq!(c, Connection { live: true, pending: Pending::Idle });
    assert!(c.can_send());
}

#[test]
fn a_connection_owes_a_reply_after_a_send() {
    let mut c = Connection::open();
    c.request_sent();
    assert_eq!(c, Connection { live: true, pending: Pending::AwaitingReply });
    assert!(!c.can_send());
    c.request_sent();
    assert_eq!(c.pending, Pending::AwaitingReply);
}

#[test]
fn a_resolved_request_frees_the_connection() {
    let mut c = Connection::open();
    c.request_sent();
    c.request_resolved();
    assert_eq!(c, Connection { live: true, pending: Pending::Idle });
    assert!(c.can_send());
}

#[test]
fn closing_abandons_what_was_outstanding() {
    let mut c = Connection::open();
    c.request_sent();
    c.close();
    assert_eq!(c, Connection { live: false, pending: Pending::Idle });
    assert!(!c.can_send());
}
