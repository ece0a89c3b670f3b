use ng_bridge::notify::{new_data, process_message, process_messages, Event, Notification, Payload, Value};
use ng_bridge::protocol::Response;

fn text(s: &str) -> Value {
    Value::Text(s.to_string())
}

fn expect(response: Response, event: Event, name: &str, payload: Payload) {
    assert_eq!(event.name(), name);
    assert_eq!(process_message(response), Some(Notification { event, payload }));
}

#[test]
fn chat_responses_become_notifications() {
    expect(
        Response::MessageFrom { sender: "bob".to_string(), content: "hi".to_string() },
        Event::ReceivedMessage,
        "received_message",
        Payload::Two(text("bob"), text("hi")),
    );
    expect(
        Response::MessageHistory { history: "[[\"bob\",\"hi\"]]".to_string() },
        Event::MessageHistory,
        "message_history",
        Payload::One(Value::Json("[[\"bob\",\"hi\"]]".to_string())),
    );
}

#[test]
fn roster_responses_become_notifications() {
    expect(Response::PlayerJoin { name: "bob".to_string() }, Event::PlayerJoin, "player_join", Payload::One(text("bob")));
    expect(Response::PlayerQuit { name: "bob".to_string() }, Event::PlayerQuit, "player_quit", Payload::One(text("bob")));
    expect(Response::PlayerReady { name: "bob".to_string() }, Event::PlayerReady, "player_ready", Payload::One(text("bob")));
    expect(
        Response::PlayerNotReady { name: "bob".to_string() },
        Event::PlayerNotReady,
        "player_not_ready",
        Payload::One(text("bob")),
    );
    expect(
        Response::Overview { clients: "[\"bob\"]".to_string(), game_state: "\"Waiting\"".to_string() },
        Event::Overview,
        "overview",
        Payload::Two(Value::Json("[\"bob\"]".to_string()), Value::Json("\"Waiting\"".to_string())),
    );
}

#[test]
fn game_responses_become_notifications() {
    expect(
        Response::AssignStart { assignee: "bob".to_string() },
        Event::AssignStart,
        "assign_start",
        Payload::One(text("bob")),
    );
    expect(
        Response::AssignResult { excuse: None },
        Event::AssignResult,
        "assign_result",
        Payload::One(Value::MaybeText(None)),
    );
    expect(
        Response::AssignResult { excuse: Some("too short".to_string()) },
        Event::AssignResult,
        "assign_result",
        Payload::One(Value::MaybeText(Some("too short".to_string()))),
    );
    expect(
        Response::GameStart { assigned: "{\"bob\":\"banana\"}".to_string() },
        Event::GameStart,
        "game_start",
        Payload::One(Value::Json("{\"bob\":\"banana\"}".to_string())),
    );
    expect(
        Response::PlayerOut { quitter: "bob".to_string(), word: "banana".to_string(), suicide: true },
        Event::PlayerOut,
        "player_out",
        Payload::Three(text("bob"), text("banana"), Value::Flag(true)),
    );
    expect(
        Response::GameWin { winner: "carol".to_string(), word: "cherry".to_string() },
        Event::GameWin,
        "game_win",
        Payload::Two(text("carol"), text("cherry")),
    );
    expect(Response::GameEndTimeout, Event::Timeout, "timeout", Payload::Empty);
    expect(Response::GameEndUnproceedable, Event::Unproceedable, "unproceedable", Payload::Empty);
    expect(
        Response::TimerReset { timer: 90 },
        Event::TimerReset,
        "timer_reset",
        Payload::One(Value::Seconds(90)),
    );
}

#[test]
fn voting_responses_become_notifications() {
    expect(Response::StartVoteAbort, Event::StartVoteAbort, "start_vote_abort", Payload::Empty);
    expect(
        Response::VotedAbort { abort: true, voter: "bob".to_string() },
        Event::VotedAbort,
        "voted_abort",
        Payload::Two(text("bob"), Value::Flag(true)),
    );
    expect(
        Response::VoteAbortResult { abort: false },
        Event::VoteAbortResult,
        "vote_abort_result",
        Payload::One(Value::Flag(false)),
    );
    expect(
        Response::ReadyResult { excuse: Some("game running".to_string()) },
        Event::ReadyResult,
        "ready_result",
        Payload::One(Value::MaybeText(Some("game running".to_string()))),
    );
}

#[test]
fn a_login_result_becomes_no_notification() {
    assert_eq!(process_message(Response::LoginResult { excuse: None }), None);
    assert_eq!(process_message(Response::LoginResult { excuse: Some("no".to_string()) }), None);
}

#[test]
fn new_data_is_the_server_event() {
    assert_eq!(new_data(), Notification { event: Event::ServerEvent, payload: Payload::Empty });
    assert_eq!(Event::ServerEvent.name(), "server_event");
}

#[test]
fn a_run_of_responses_keeps_its_order() {
    let responses = vec![
        Response::PlayerJoin { name: "a".to_string() },
        Response::LoginResult { excuse: None },
        Response::GameEndTimeout,
        Response::PlayerQuit { name: "a".to_string() },
    ];
    assert_eq!(
        process_messages(responses),
        vec![
            Notification { event: Event::PlayerJoin, payload: Payload::One(text("a")) },
            Notification { event: Event::Timeout, payload: Payload::Empty },
            Notification { event: Event::PlayerQuit, payload: Payload::One(text("a")) },
        ]
    );
    assert_eq!(process_messages(vec![]), vec![]);
}
