use ng_bridge::bridge::{Bridge, Frame, Idle, SubmitError};
use ng_bridge::gate::{GateState, LoginError, LoginPoll};
use ng_bridge::notify::{Event, Notification, Payload, Value};
use ng_bridge::protocol::{Action, Response};

fn join(name: &str) -> Response {
    Response::PlayerJoin { name: name.to_string() }
}

fn joined(name: &str) -> Notification {
    Notification { event: Event::PlayerJoin, payload: Payload::One(Value::Text(name.to_string())) }
}

fn new_data() -> Notification {
    Notification { event: Event::ServerEvent, payload: Payload::Empty }
}

#[test]
fn login_succeeds_and_replays_what_was_held_back() {
    let mut bridge = Bridge::new(100, 100);
    assert_eq!(bridge.login("alice".to_string()), Ok(()));
    assert_eq!(bridge.next_outbound(), Some(Action::Login { name: "alice".to_string() }));
    assert_eq!(bridge.next_outbound(), None);

    assert_eq!(bridge.on_frame(Frame::Decoded(join("bob"))), Some(new_data()));
    assert_eq!(bridge.drain_notifications(), Err(Idle::Gated));
    assert_eq!(
        bridge.on_frame(Frame::Decoded(Response::LoginResult { excuse: None })),
        Some(new_data())
    );
    assert_eq!(bridge.on_frame(Frame::Decoded(join("carol"))), Some(new_data()));

    assert_eq!(bridge.poll_login(), LoginPoll::Granted(vec![joined("bob")]));
    assert_eq!(bridge.gate_state(), GateState::Authenticated);
    assert_eq!(bridge.drain_notifications(), Ok(Some(joined("carol"))));
    assert_eq!(bridge.drain_notifications(), Err(Idle::Empty));
    assert_eq!(bridge.poll_login(), LoginPoll::Granted(vec![]));
}

#[test]
fn login_is_rejected_and_nothing_is_delivered() {
    let mut bridge = Bridge::new(100, 100);
    assert_eq!(bridge.login("alice".to_string()), Ok(()));
    bridge.on_frame(Frame::Decoded(join("bob")));
    bridge.on_frame(Frame::Decoded(Response::LoginResult {
        excuse: Some("name taken".to_string()),
    }));

    let poll = bridge.poll_login();
    assert_eq!(poll, LoginPoll::Failed(LoginError::Rejected("name taken".to_string())));
    match poll {
        LoginPoll::Failed(error) => assert_eq!(error.message(), "name taken"),
        _ => unreachable!(),
    }
    assert_eq!(bridge.gate_state(), GateState::Rejected);
    assert_eq!(bridge.drain_notifications(), Err(Idle::Gated));
    assert_eq!(bridge.flush_response_queue(), (vec![], Idle::Gated));
    assert_eq!(
        bridge.poll_login(),
        LoginPoll::Failed(LoginError::Rejected("name taken".to_string()))
    );
}

#[test]
fn submit_waits_for_the_writer_when_the_queue_is_full() {
    let capacity = 3;
    let mut bridge = Bridge::new(capacity, 100);
    for n in 0..capacity {
        assert_eq!(bridge.send_message(format!("line {}", n)), Ok(()));
    }
    assert_eq!(bridge.outbound_len(), capacity);

    let refused = bridge.send_message("one too many".to_string());
    let waiting = Action::Send { text: "one too many".to_string() };
    assert_eq!(refused, Err(SubmitError::Full(waiting.clone())));
    assert_eq!(bridge.outbound_len(), capacity);
    let again = match refused {
        Err(error) => error.into_action(),
        Ok(()) => unreachable!(),
    };
    assert_eq!(bridge.submit(again.clone()), Err(SubmitError::Full(waiting.clone())));

    assert_eq!(bridge.next_outbound(), Some(Action::Send { text: "line 0".to_string() }));
    assert_eq!(bridge.submit(again), Ok(()));
    assert_eq!(bridge.next_outbound(), Some(Action::Send { text: "line 1".to_string() }));
    assert_eq!(bridge.next_outbound(), Some(Action::Send { text: "line 2".to_string() }));
    assert_eq!(bridge.next_outbound(), Some(waiting));
    assert_eq!(bridge.next_outbound(), None);
}

#[test]
fn handshake_holds_back_nothing_one_and_many() {
    for held in [0usize, 1, 250] {
        let mut bridge = Bridge::new(4, 4);
        let mut expected = Vec::new();
        for n in 0..held {
            let name = format!("player {}", n);
            assert_eq!(bridge.on_frame(Frame::Decoded(join(&name))), Some(new_data()));
            assert_eq!(bridge.poll_login(), LoginPoll::Pending);
            expected.push(joined(&name));
        }
        bridge.on_frame(Frame::Decoded(Response::LoginResult { excuse: None }));
        bridge.on_frame(Frame::Decoded(join("late")));
        assert_eq!(bridge.poll_login(), LoginPoll::Granted(expected));
        assert_eq!(bridge.flush_response_queue(), (vec![joined("late")], Idle::Empty));
    }
}

#[test]
fn rejection_discards_any_number_of_held_responses() {
    for held in [0usize, 1, 40] {
        let mut bridge = Bridge::new(4, 64);
        for n in 0..held {
            bridge.on_frame(Frame::Decoded(join(&format!("player {}", n))));
        }
        bridge.on_frame(Frame::Decoded(Response::LoginResult {
            excuse: Some("server full".to_string()),
        }));
        assert_eq!(
            bridge.poll_login(),
            LoginPoll::Failed(LoginError::Rejected("server full".to_string()))
        );
        assert_eq!(bridge.flush_response_queue(), (vec![], Idle::Gated));
    }
}
