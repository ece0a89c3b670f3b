//! What the host is told: one notification for each response.

use vstd::prelude::*;
use crate::protocol::Response;

verus! {

/// The kinds of notification that the host can receive.
#[derive(Debug, Clone, Copy, PartialEq, Eq, Structural)]
pub enum Event {
    ReceivedMessage,
    MessageHistory,
    PlayerJoin,
    PlayerQuit,
    PlayerReady,
    PlayerNotReady,
    Overview,
    AssignStart,
    AssignResult,
    GameStart,
    PlayerOut,
    GameWin,
    Timeout,
    Unproceedable,
    TimerReset,
    StartVoteAbort,
    VotedAbort,
    VoteAbortResult,
    ReadyResult,
    /// New data has arrived from the server and waits to be drained.
    ServerEvent,
}

/// One value inside a notification's payload.
#[derive(Debug, Clone, PartialEq, Eq)]
pub enum Value {
    /// A string.
    Text(String),
    /// A string, or nothing.
    MaybeText(Option<String>),
    /// A truth value.
    Flag(bool),
    /// A span of time in whole seconds.
    Seconds(u64),
    /// The JSON text of a value that the bridge passes on unread.
    Json(String),
}

/// What a notification carries: nothing, one value, or a tuple of values.
#[derive(Debug, Clone, PartialEq, Eq)]
pub enum Payload {
    Empty,
    One(Value),
    Two(Value, Value),
    Three(Value, Value, Value),
}

/// A message for the host: the event's kind and its payload.
#[derive(Debug, Clone, PartialEq, Eq)]
pub struct Notification {
    pub event: Event,
    pub payload: Payload,
}

impl Event {
    /// The name under which the host listens for this event.
    pub open spec fn spec_name(self) -> Seq<char> {
        match self {
            Event::ReceivedMessage => "received_message"@,
            Event::MessageHistory => "message_history"@,
            Event::PlayerJoin => "player_join"@,
            Event::PlayerQuit => "player_quit"@,
            Event::PlayerReady => "player_ready"@,
            Event::PlayerNotReady => "player_not_ready"@,
            Event::Overview => "overview"@,
            Event::AssignStart => "assign_start"@,
            Event::AssignResult => "assign_result"@,
            Event::GameStart => "game_start"@,
            Event::PlayerOut => "player_out"@,
            Event::GameWin => "game_win"@,
            Event::Timeout => "timeout"@,
            Event::Unproceedable => "unproceedable"@,
            Event::TimerReset => "timer_reset"@,
            Event::StartVoteAbort => "start_vote_abort"@,
            Event::VotedAbort => "voted_abort"@,
            Event::VoteAbortResult => "vote_abort_result"@,
            Event::ReadyResult => "ready_result"@,
            Event::ServerEvent => "server_event"@,
        }
    }

    /// The name under which the host listens for this event.
    pub fn name(&self) -> (name: &'static str)
        ensures
            name@ == self.spec_name(),
    {
        match self {
            Event::ReceivedMessage => "received_message",
            Event::MessageHistory => "message_history",
            Event::PlayerJoin => "player_join",
            Event::PlayerQuit => "player_quit",
            Event::PlayerReady => "player_ready",
            Event::PlayerNotReady => "player_not_ready",
            Event::Overview => "overview",
            Event::AssignStart => "assign_start",
            Event::AssignResult => "assign_result",
            Event::GameStart => "game_start",
            Event::PlayerOut => "player_out",
            Event::GameWin => "game_win",
            Event::Timeout => "timeout",
            Event::Unproceedable => "unproceedable",
            Event::TimerReset => "timer_reset",
            Event::StartVoteAbort => "start_vote_abort",
            Event::VotedAbort => "voted_abort",
            Event::VoteAbortResult => "vote_abort_result",
            Event::ReadyResult => "ready_result",
            Event::ServerEvent => "server_event",
        }
    }
}

/// The event that `response` raises; a login result raises none.
pub open spec fn event_of(response: Response) -> Option<Event> {
    match response {
        Response::MessageFrom { .. } => Some(Event::ReceivedMessage),
        Response::MessageHistory { .. } => Some(Event::MessageHistory),
        Response::PlayerJoin { .. } => Some(Event::PlayerJoin),
        Response::PlayerQuit { .. } => Some(Event::PlayerQuit),
        Response::PlayerReady { .. } => Some(Event::PlayerReady),
        Response::PlayerNotReady { .. } => Some(Event::PlayerNotReady),
        Response::Overview { .. } => Some(Event::Overview),
        Response::AssignStart { .. } => Some(Event::AssignStart),
        Response::AssignResult { .. } => Some(Event::AssignResult),
        Response::GameStart { .. } => Some(Event::GameStart),
        Response::PlayerOut { .. } => Some(Event::PlayerOut),
        Response::GameWin { .. } => Some(Event::GameWin),
        Response::GameEndTimeout => Some(Event::Timeout),
        Response::GameEndUnproceedable => Some(Event::Unproceedable),
        Response::TimerReset { .. } => Some(Event::TimerReset),
        Response::StartVoteAbort => Some(Event::StartVoteAbort),
        Response::VotedAbort { .. } => Some(Event::VotedAbort),
        Response::VoteAbortResult { .. } => Some(Event::VoteAbortResult),
        Response::ReadyResult { .. } => Some(Event::ReadyResult),
        Response::LoginResult { .. } => None,
    }
}

/// The values that `response` hands to the host, in the order in which the
/// host expects them.
pub open spec fn payload_of(response: Response) -> Payload {
    match response {
        Response::MessageFrom { sender, content } => Payload::Two(
            Value::Text(sender),
            Value::Text(content),
        ),
        Response::MessageHistory { history } => Payload::One(Value::Json(history)),
        Response::PlayerJoin { name } => Payload::One(Value::Text(name)),
        Response::PlayerQuit { name } => Payload::One(Value::Text(name)),
        Response::PlayerReady { name } => Payload::One(Value::Text(name)),
        Response::PlayerNotReady { name } => Payload::One(Value::Text(name)),
        Response::Overview { clients, game_state } => Payload::Two(
            Value::Json(clients),
            Value::Json(game_state),
        ),
        Response::AssignStart { assignee } => Payload::One(Value::Text(assignee)),
        Response::AssignResult { excuse } => Payload::One(Value::MaybeText(excuse)),
        Response::GameStart { assigned } => Payload::One(Value::Json(assigned)),
        Response::PlayerOut { quitter, word, suicide } => Payload::Three(
            Value::Text(quitter),
            Value::Text(word),
            Value::Flag(suicide),
        ),
        Response::GameWin { winner, word } => Payload::Two(Value::Text(winner), Value::Text(word)),
        Response::GameEndTimeout => Payload::Empty,
        Response::GameEndUnproceedable => Payload::Empty,
        Response::TimerReset { timer } => Payload::One(Value::Seconds(timer)),
        Response::StartVoteAbort => Payload::Empty,
        Response::VotedAbort { abort, voter } => Payload::Two(
            Value::Text(voter),
            Value::Flag(abort),
        ),
        Response::VoteAbortResult { abort } => Payload::One(Value::Flag(abort)),
        Response::ReadyResult { excuse } => Payload::One(Value::MaybeText(excuse)),
        Response::LoginResult { .. } => Payload::Empty,
    }
}

/// The notification that `response` becomes, if it becomes one.
pub open spec fn notification_of(response: Response) -> Option<Notification> {
    match event_of(response) {
        Some(event) => Some(Notification { event, payload: payload_of(response) }),
        None => None,
    }
}

/// The notifications that a run of responses becomes: one for each response
/// that raises an event, in the order of the responses.
pub open spec fn notifications_of(responses: Seq<Response>) -> Seq<Notification> {
    responses.filter_map(|response: Response| notification_of(response))
}

/// A single response becomes its notification, if it has one.
pub proof fn lemma_notifications_single(response: Response)
    ensures
        notifications_of(seq![response]) == match notification_of(response) {
            Some(notification) => seq![notification],
            None => Seq::empty(),
        },
{
    reveal_with_fuel(Seq::filter_map, 2);
    assert(seq![response].drop_last() == Seq::<Response>::empty());
    assert(seq![response].last() == response);
}

/// Notifications keep the order of the responses: those of a run followed
/// by another are those of the first followed by those of the second.
pub proof fn lemma_notifications_concat(first: Seq<Response>, second: Seq<Response>)
    ensures
        notifications_of(first + second) == notifications_of(first) + notifications_of(second),
    decreases second.len(),
{
    if second.len() == 0 {
        assert(first + second == first);
        assert(notifications_of(first) + Seq::<Notification>::empty() == notifications_of(first));
    } else {
        lemma_notifications_concat(first, second.drop_last());
        assert((first + second).drop_last() == first + second.drop_last());
        assert((first + second).last() == second.last());
        match notification_of(second.last()) {
            Some(notification) => {
                assert((notifications_of(first) + notifications_of(second.drop_last())).push(
                    notification,
                ) == notifications_of(first) + notifications_of(second.drop_last()).push(
                    notification,
                ));
            },
            None => {},
        }
    }
}

/// The notification that tells the host that new data waits to be drained.
pub open spec fn server_event() -> Notification {
    Notification { event: Event::ServerEvent, payload: Payload::Empty }
}

/// Turns a response into the notification that the host receives for it.
///
/// Every response but a login result becomes exactly one notification; a
/// login result is consumed by the login gate and becomes none.
pub fn process_message(message: Response) -> (out: Option<Notification>)
    ensures
        out == notification_of(message),
{
    match message {
        Response::MessageFrom { sender, content } => Some(
            Notification {
                event: Event::ReceivedMessage,
                payload: Payload::Two(Value::Text(sender), Value::Text(content)),
            },
        ),
        Response::AssignResult { excuse } => Some(
            Notification {
                event: Event::AssignResult,
                payload: Payload::One(Value::MaybeText(excuse)),
            },
        ),
        Response::PlayerOut { quitter, word, suicide } => Some(
            Notification {
                event: Event::PlayerOut,
                payload: Payload::Three(
                    Value::Text(quitter),
                    Value::Text(word),
                    Value::Flag(suicide),
                ),
            },
        ),
        Response::PlayerReady { name } => Some(
            Notification { event: Event::PlayerReady, payload: Payload::One(Value::Text(name)) },
        ),
        Response::PlayerNotReady { name } => Some(
            Notification { event: Event::PlayerNotReady, payload: Payload::One(Value::Text(name)) },
        ),
        Response::TimerReset { timer } => Some(
            Notification { event: Event::TimerReset, payload: Payload::One(Value::Seconds(timer)) },
        ),
        Response::GameWin { winner, word } => Some(
            Notification {
                event: Event::GameWin,
                payload: Payload::Two(Value::Text(winner), Value::Text(word)),
            },
        ),
        Response::GameEndTimeout => Some(
            Notification { event: Event::Timeout, payload: Payload::Empty },
        ),
        Response::GameEndUnproceedable => Some(
            Notification { event: Event::Unproceedable, payload: Payload::Empty },
        ),
        Response::StartVoteAbort => Some(
            Notification { event: Event::StartVoteAbort, payload: Payload::Empty },
        ),
        Response::VotedAbort { abort, voter } => Some(
            Notification {
                event: Event::VotedAbort,
                payload: Payload::Two(Value::Text(voter), Value::Flag(abort)),
            },
        ),
        Response::VoteAbortResult { abort } => Some(
            Notification { event: Event::VoteAbortResult, payload: Payload::One(Value::Flag(abort)) },
        ),
        Response::AssignStart { assignee } => Some(
            Notification { event: Event::AssignStart, payload: Payload::One(Value::Text(assignee)) },
        ),
        Response::GameStart { assigned } => Some(
            Notification { event: Event::GameStart, payload: Payload::One(Value::Json(assigned)) },
        ),
        Response::Overview { clients, game_state } => Some(
            Notification {
                event: Event::Overview,
                payload: Payload::Two(Value::Json(clients), Value::Json(game_state)),
            },
        ),
        Response::MessageHistory { history } => Some(
            Notification { event: Event::MessageHistory, payload: Payload::One(Value::Json(history)) },
        ),
        Response::PlayerJoin { name } => Some(
            Notification { event: Event::PlayerJoin, payload: Payload::One(Value::Text(name)) },
        ),
        Response::PlayerQuit { name } => Some(
            Notification { event: Event::PlayerQuit, payload: Payload::One(Value::Text(name)) },
        ),
        Response::ReadyResult { excuse } => Some(
            Notification { event: Event::ReadyResult, payload: Payload::One(Value::MaybeText(excuse)) },
        ),
        Response::LoginResult { .. } => None,
    }
}

/// Turns a run of responses into the notifications that the host receives
/// for them, in the same order.
pub fn process_messages(messages: Vec<Response>) -> (out: Vec<Notification>)
    ensures
        out@ == notifications_of(messages@),
{
    let ghost all = messages@;
    let mut out: Vec<Notification> = Vec::new();
    for message in it: messages
        invariant
            it.seq() == all,
            out@ == notifications_of(all.take(it.index() as int)),
    {
        proof {
            let done = all.take(it.index() as int);
            let next = all.take(it.index() as int + 1);
            assert(next.drop_last() == done);
            assert(next.last() == message);
        }
        match process_message(message) {
            Some(notification) => {
                out.push(notification);
            },
            None => {},
        }
    }
    proof {
        assert(all.take(all.len() as int) == all);
    }
    out
}

/// Builds the notification that tells the host that new data has arrived.
pub fn new_data() -> (out: Notification)
    ensures
        out == server_event(),
{
    Notification { event: Event::ServerEvent, payload: Payload::Empty }
}

} // verus!
