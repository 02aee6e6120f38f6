use reqrep_gateway::backend::{Command, Event};
use reqrep_gateway::connection::{Connection, Pending};
use reqrep_gateway::error::ConnectionError;
use reqrep_gateway::policy::ReplyPolicy;
use reqrep_gateway::stateless::{respond, Call, CallAction, CallPhase, Response, Status, DIAGNOSTIC};

fn unavailable() -> Response {
    Response { status: Status::ServiceUnavailable, body: b"Internal network failure".to_vec() }
}

fn success(body: &[u8]) -> Response {
    Response { status: Status::Success, body: body.to_vec() }
}

fn poll(timeout_ms: u64) -> CallAction {
    CallAction::Backend(Command::Poll { timeout_ms })
}

/// Runs a call over the reports given and collects its actions, the first
/// one included.
fn run_call(body: &[u8], policy: ReplyPolicy, events: Vec<Event>) -> (Call, Vec<CallAction>) {
    let (mut call, first) = Call::begin(body.to_vec(), policy);
    let mut actions = vec![first];
    for event in events {
        actions.push(call.step(event));
    }
    (call, actions)
}

#[test]
fn the_diagnostic_is_fixed_and_not_empty() {
    assert_eq!(DIAGNOSTIC, "Internal network failure");
    assert!(!DIAGNOSTIC.is_empty());
}

#[test]
fn a_reply_becomes_the_body_of_a_success() {
    assert_eq!(respond(Ok(Some(b"{\"ok\":1}".to_vec()))), success(b"{\"ok\":1}"));
    assert_eq!(respond(Ok(Some(vec![0, 159, 146, 150]))), success(&[0, 159, 146, 150]));
}

#[test]
fn no_reply_becomes_an_empty_success() {
    assert_eq!(respond(Ok(None)), success(b""));
}

#[test]
fn a_reply_of_zero_bytes_and_no_reply_respond_alike() {
    assert_eq!(respond(Ok(Some(Vec::new()))), respond(Ok(None)));
    assert_eq!(respond(Ok(Some(Vec::new()))), success(b""));
}

#[test]
fn every_connection_error_becomes_service_unavailable() {
    assert_eq!(respond(Err(ConnectionError::Socket { code: 111 })), unavailable());
    assert_eq!(respond(Err(ConnectionError::Socket { code: 0 })), unavailable());
    assert_eq!(respond(Err(ConnectionError::ProtocolViolation { parts: 1 })), unavailable());
    assert!(!respond(Err(ConnectionError::Socket { code: 111 })).body.is_empty());
}

#[test]
fn a_call_begins_by_connecting() {
    let (call, first) = Call::begin(b"body".to_vec(), ReplyPolicy::stateless());
    assert_eq!(first, CallAction::Backend(Command::Connect));
    assert_eq!(call.phase, CallPhase::Connecting);
    assert_eq!(call.connection, Connection { live: false, pending: Pending::Idle });
    assert_eq!(call.body, b"body".to_vec());
    assert!(!call.is_done());
}

#[test]
fn a_call_that_is_answered_runs_the_whole_cycle() {
    let (call, actions) = run_call(
        b"request",
        ReplyPolicy::stateless(),
        vec![
            Event::Connected(Ok(())),
            Event::Sent(Ok(())),
            Event::Polled(Ok(0)),
            Event::Polled(Ok(0)),
            Event::Polled(Ok(1)),
            Event::Received(Ok(Some(vec![vec![], b"response".to_vec()]))),
        ],
    );
    assert_eq!(
        actions,
        vec![
            CallAction::Backend(Command::Connect),
            CallAction::Backend(Command::Transmit { parts: vec![vec![], b"request".to_vec()] }),
            poll(1000),
            poll(1000),
            poll(1000),
            CallAction::Backend(Command::Receive),
            CallAction::Finish { close: true, response: success(b"response") },
        ]
    );
    assert!(call.is_done());
    assert_eq!(call.connection, Connection { live: false, pending: Pending::Idle });
}

#[test]
fn a_call_owes_a_reply_while_it_waits() {
    let (call, _) = run_call(
        b"request",
        ReplyPolicy::stateless(),
        vec![Event::Connected(Ok(())), Event::Sent(Ok(()))],
    );
    assert_eq!(call.connection, Connection { live: true, pending: Pending::AwaitingReply });
    assert!(matches!(call.phase, CallPhase::Waiting(_)));
    assert!(call.body.is_empty());
}

#[test]
fn a_call_that_is_not_answered_ends_as_an_empty_success() {
    let mut events = vec![Event::Connected(Ok(())), Event::Sent(Ok(()))];
    for _ in 0..10 {
        events.push(Event::Polled(Ok(0)));
    }
    let (call, actions) = run_call(b"request", ReplyPolicy::stateless(), events);
    assert_eq!(actions.len(), 13);
    assert_eq!(actions[0], CallAction::Backend(Command::Connect));
    assert_eq!(
        actions[1],
        CallAction::Backend(Command::Transmit { parts: vec![vec![], b"request".to_vec()] })
    );
    for action in &actions[2..12] {
        assert_eq!(*action, poll(1000));
    }
    assert_eq!(actions[12], CallAction::Finish { close: true, response: success(b"") });
    assert!(call.is_done());
}

#[test]
fn a_reply_of_zero_bytes_ends_the_call_as_silence_does() {
    let (_, answered) = run_call(
        b"request",
        ReplyPolicy::new(2, 10),
        vec![
            Event::Connected(Ok(())),
            Event::Sent(Ok(())),
            Event::Polled(Ok(1)),
            Event::Received(Ok(Some(vec![vec![], vec![]]))),
        ],
    );
    let (_, silent) = run_call(
        b"request",
        ReplyPolicy::new(2, 10),
        vec![
            Event::Connected(Ok(())),
            Event::Sent(Ok(())),
            Event::Polled(Ok(0)),
            Event::Polled(Ok(0)),
        ],
    );
    assert_eq!(answered.last(), silent.last());
    assert_eq!(answered.last(), Some(&CallAction::Finish { close: true, response: success(b"") }));
}

#[test]
fn a_failed_connect_ends_the_call_as_service_unavailable() {
    let (call, actions) =
        run_call(b"request", ReplyPolicy::stateless(), vec![Event::Connected(Err(111))]);
    assert_eq!(
        actions,
        vec![
            CallAction::Backend(Command::Connect),
            CallAction::Finish { close: false, response: unavailable() },
        ]
    );
    assert!(call.is_done());
    assert!(!call.connection.live);
}

#[test]
fn a_failed_send_ends_the_call_as_service_unavailable() {
    let (call, actions) = run_call(
        b"request",
        ReplyPolicy::stateless(),
        vec![Event::Connected(Ok(())), Event::Sent(Err(113))],
    );
    assert_eq!(
        actions.last(),
        Some(&CallAction::Finish { close: true, response: unavailable() })
    );
    assert!(call.is_done());
    assert_eq!(call.connection, Connection { live: false, pending: Pending::Idle });
}

#[test]
fn a_failed_poll_ends_the_call_as_service_unavailable() {
    let (_, actions) = run_call(
        b"request",
        ReplyPolicy::stateless(),
        vec![
            Event::Connected(Ok(())),
            Event::Sent(Ok(())),
            Event::Polled(Ok(0)),
            Event::Polled(Err(156384765)),
        ],
    );
    assert_eq!(actions.len(), 5);
    assert_eq!(actions[4], CallAction::Finish { close: true, response: unavailable() });
}

#[test]
fn a_failed_receive_ends_the_call_as_service_unavailable() {
    let (_, actions) = run_call(
        b"request",
        ReplyPolicy::stateless(),
        vec![
            Event::Connected(Ok(())),
            Event::Sent(Ok(())),
            Event::Polled(Ok(1)),
            Event::Received(Err(4)),
        ],
    );
    assert_eq!(actions[4], CallAction::Finish { close: true, response: unavailable() });
}

#[test]
fn a_reply_that_is_no_envelope_ends_the_call_as_service_unavailable() {
    let (_, actions) = run_call(
        b"request",
        ReplyPolicy::stateless(),
        vec![
            Event::Connected(Ok(())),
            Event::Sent(Ok(())),
            Event::Polled(Ok(1)),
            Event::Received(Ok(Some(vec![b"response".to_vec()]))),
        ],
    );
    assert_eq!(actions[4], CallAction::Finish { close: true, response: unavailable() });
}

#[test]
fn a_call_under_a_policy_of_no_attempts_does_not_wait() {
    let (call, actions) = run_call(
        b"request",
        ReplyPolicy::new(0, 1000),
        vec![Event::Connected(Ok(())), Event::Sent(Ok(()))],
    );
    assert_eq!(
        actions,
        vec![
            CallAction::Backend(Command::Connect),
            CallAction::Backend(Command::Transmit { parts: vec![vec![], b"request".to_vec()] }),
            CallAction::Finish { close: true, response: success(b"") },
        ]
    );
    assert!(call.is_done());
}

#[test]
fn an_empty_body_is_sent_as_an_envelope_too() {
    let (_, actions) =
        run_call(b"", ReplyPolicy::stateless(), vec![Event::Connected(Ok(()))]);
    assert_eq!(
        actions[1],
        CallAction::Backend(Command::Transmit { parts: vec![vec![], vec![]] })
    );
}

#[test]
fn a_call_ignores_what_it_does_not_await() {
    let (mut call, _) = Call::begin(b"request".to_vec(), ReplyPolicy::stateless());
    assert_eq!(call.step(Event::Sent(Ok(()))), CallAction::Ignored);
    assert_eq!(call.step(Event::Polled(Ok(1))), CallAction::Ignored);
    assert_eq!(call.phase, CallPhase::Connecting);
    assert_eq!(call.body, b"request".to_vec());
    let _ = call.step(Event::Connected(Ok(())));
    assert_eq!(call.step(Event::Connected(Ok(()))), CallAction::Ignored);
    assert_eq!(call.step(Event::Received(Ok(None))), CallAction::Ignored);
    assert_eq!(call.phase, CallPhase::Sending);
    let _ = call.step(Event::Sent(Ok(())));
    assert_eq!(call.step(Event::Sent(Ok(()))), CallAction::Ignored);
    assert_eq!(call.step(Event::Received(Ok(None))), CallAction::Ignored);
    assert!(matches!(call.phase, CallPhase::Waiting(_)));
}

#[test]
fn a_call_that_is_over_answers_nothing() {
    let (mut call, _) =
        run_call(b"request", ReplyPolicy::stateless(), vec![Event::Connected(Err(111))]);
    assert_eq!(call.step(Event::Connected(Ok(()))), CallAction::Ignored);
    assert_eq!(call.step(Event::Sent(Ok(()))), CallAction::Ignored);
    assert_eq!(call.step(Event::Polled(Ok(1))), CallAction::Ignored);
    assert_eq!(
        call.step(Event::Received(Ok(Some(vec![vec![], b"late".to_vec()])))),
        CallAction::Ignored
    );
    assert!(call.is_done());
    assert!(!call.connection.live);
}

#[test]
fn a_failed_call_does_not_touch_the_next_one() {
    let answered = || {
        vec![
            Event::Connected(Ok(())),
            Event::Sent(Ok(())),
            Event::Polled(Ok(1)),
            Event::Received(Ok(Some(vec![vec![], b"two".to_vec()]))),
        ]
    };
    let (alone, expected) = run_call(b"second", ReplyPolicy::stateless(), answered());

    let (first, failed) =
        run_call(b"first", ReplyPolicy::stateless(), vec![Event::Connected(Err(111))]);
    assert_eq!(
        failed.last(),
        Some(&CallAction::Finish { close: false, response: unavailable() })
    );
    assert!(!first.connection.live);
    let (second, actions) = run_call(b"second", ReplyPolicy::stateless(), answered());
    assert_eq!(actions[0], CallAction::Backend(Command::Connect));
    assert_eq!(actions, expected);
    assert_eq!(second, alone);
    assert_eq!(
        actions.last(),
        Some(&CallAction::Finish { close: true, response: success(b"two") })
    );
}

#[test]
fn abandoning_a_call_that_waits_leaves_a_socket_to_close() {
    let (mut call, _) = run_call(
        b"request",
        ReplyPolicy::stateless(),
        vec![Event::Connected(Ok(())), Event::Sent(Ok(())), Event::Polled(Ok(0))],
    );
    assert!(call.abandon());
    assert!(call.is_done());
    assert_eq!(call.connection, Connection { live: false, pending: Pending::Idle });
    assert_eq!(call.step(Event::Polled(Ok(1))), CallAction::Ignored);
    assert!(!call.abandon());
}

#[test]
fn abandoning_a_call_that_has_not_connected_leaves_nothing_to_close() {
    let (mut call, _) = Call::begin(b"request".to_vec(), ReplyPolicy::stateless());
    assert!(!call.abandon());
    assert!(call.is_done());
}

#[test]
fn a_call_transmits_once_whatever_is_reported() {
    let (_, actions) = run_call(
        b"request",
        ReplyPolicy::new(2, 10),
        vec![
            Event::Sent(Ok(())),
            Event::Connected(Ok(())),
            Event::Connected(Ok(())),
            Event::Sent(Ok(())),
            Event::Connected(Ok(())),
            Event::Sent(Ok(())),
            Event::Polled(Ok(0)),
            Event::Connected(Ok(())),
            Event::Polled(Ok(0)),
            Event::Connected(Ok(())),
            Event::Sent(Ok(())),
        ],
    );
    let transmits = actions
        .iter()
        .filter(|action| matches!(action, CallAction::Backend(Command::Transmit { .. })))
        .count();
    assert_eq!(transmits, 1);
    let finishes =
        actions.iter().filter(|action| matches!(action, CallAction::Finish { .. })).count();
    assert_eq!(finishes, 1);
}
