//! The bridge: two bounded queues and the login gate, under one roof.
//!
//! The host puts actions into the outbound queue and the socket writer takes
//! them out; the socket reader puts responses into the inbound queue and the
//! host takes them out, first through the login gate and then, once the login
//! has succeeded, through the flush loop.
//!
//! A bridge waits for nothing. Where the caller would have to wait (for room
//! in the outbound queue, for the next response) the bridge says so and
//! leaves its state as it was, and the caller comes back later.

use vstd::prelude::*;
use crate::gate::{GateState, GateView, LoginGate, LoginPoll, PollView};
use crate::notify::{
    lemma_notifications_concat,
    new_data,
    notification_of,
    notifications_of,
    process_message,
    server_event,
    Notification,
};
use crate::protocol::{Action, Response};
use crate::queue::BoundedQueue;

verus! {

/// The number of items that each queue of a bridge holds by default.
pub const DEFAULT_CAPACITY: usize = 100;

/// What the socket reader makes of one frame.
#[derive(Debug, Clone, PartialEq, Eq)]
pub enum Frame {
    /// The frame held this response.
    Decoded(Response),
    /// The frame was not well formed, or of a kind that is not known.
    Undecodable,
}

/// Why an action was not accepted. Either way the action comes back.
#[derive(Debug, Clone, PartialEq, Eq)]
pub enum SubmitError {
    /// The outbound queue is full: submit again once the writer has taken
    /// an action out.
    Full(Action),
    /// The connection is closed: nothing will be written any more.
    Closed(Action),
}

impl SubmitError {
    /// The action that was not accepted.
    pub open spec fn spec_action(self) -> Action {
        match self {
            SubmitError::Full(action) => action,
            SubmitError::Closed(action) => action,
        }
    }

    /// Takes back the action that was not accepted, to submit it again.
    pub fn into_action(self) -> (action: Action)
        ensures
            action == self.spec_action(),
    {
        match self {
            SubmitError::Full(action) => action,
            SubmitError::Closed(action) => action,
        }
    }
}

/// Why no response was taken off the inbound queue.
#[derive(Debug, Clone, Copy, PartialEq, Eq, Structural)]
pub enum Idle {
    /// The queue is empty for now.
    Empty,
    /// The queue is empty and the connection is closed: nothing will come.
    Closed,
    /// The login has not succeeded, so the queue is not the host's to drain.
    Gated,
}

/// The model of a [`Bridge`].
pub struct BridgeView {
    /// The actions that wait to be written, oldest first.
    pub outbound: Seq<Action>,
    /// How many actions may wait at once.
    pub outbound_capacity: nat,
    /// The responses that wait to be consumed, oldest first.
    pub inbound: Seq<Response>,
    /// How many responses may wait at once.
    pub inbound_capacity: nat,
    /// The login gate.
    pub gate: GateView,
    /// Whether the connection is closed.
    pub closed: bool,
}

impl BridgeView {
    /// A bridge that has seen nothing yet.
    pub open spec fn initial(outbound_capacity: nat, inbound_capacity: nat) -> BridgeView {
        BridgeView {
            outbound: Seq::empty(),
            outbound_capacity,
            inbound: Seq::empty(),
            inbound_capacity,
            gate: GateView::initial(),
            closed: false,
        }
    }

    /// Neither queue holds more than its capacity.
    pub open spec fn wf(self) -> bool {
        &&& self.outbound.len() <= self.outbound_capacity
        &&& self.inbound.len() <= self.inbound_capacity
    }

    /// The host submits `action`.
    pub open spec fn submit(self, action: Action) -> (BridgeView, Result<(), SubmitError>) {
        if self.closed {
            (self, Err(SubmitError::Closed(action)))
        } else if self.outbound.len() >= self.outbound_capacity {
            (self, Err(SubmitError::Full(action)))
        } else {
            (BridgeView { outbound: self.outbound.push(action), ..self }, Ok(()))
        }
    }

    /// The writer asks for the next action to put on the wire.
    pub open spec fn next_outbound(self) -> (BridgeView, Option<Action>) {
        if self.outbound.len() > 0 {
            (BridgeView { outbound: self.outbound.drop_first(), ..self }, Some(self.outbound.first()))
        } else {
            (self, None)
        }
    }

    /// The reader hands over what it made of a frame.
    pub open spec fn on_frame(self, frame: Frame) -> (BridgeView, Option<Notification>) {
        match frame {
            Frame::Decoded(response) => {
                if !self.closed && self.inbound.len() < self.inbound_capacity {
                    (
                        BridgeView { inbound: self.inbound.push(response), ..self },
                        Some(server_event()),
                    )
                } else {
                    (self, None)
                }
            },
            Frame::Undecodable => (self, None),
        }
    }

    /// The connection is closed.
    pub open spec fn close(self) -> BridgeView {
        BridgeView { closed: true, ..self }
    }

    /// The host tries to complete the login.
    pub open spec fn poll_login(self) -> (BridgeView, PollView) {
        let (gate, inbound, poll) = self.gate.advance(self.inbound, self.closed);
        (BridgeView { gate, inbound, ..self }, poll)
    }

    /// The host asks for the next notification.
    pub open spec fn drain(self) -> (BridgeView, Result<Option<Notification>, Idle>) {
        if self.gate.state() != GateState::Authenticated {
            (self, Err(Idle::Gated))
        } else if self.inbound.len() > 0 {
            (
                BridgeView { inbound: self.inbound.drop_first(), ..self },
                Ok(notification_of(self.inbound.first())),
            )
        } else if self.closed {
            (self, Err(Idle::Closed))
        } else {
            (self, Err(Idle::Empty))
        }
    }

    /// The host asks for every notification that is due.
    pub open spec fn flush(self) -> (BridgeView, Seq<Notification>, Idle) {
        if self.gate.state() != GateState::Authenticated {
            (self, Seq::empty(), Idle::Gated)
        } else {
            (
                BridgeView { inbound: Seq::empty(), ..self },
                notifications_of(self.inbound),
                if self.closed {
                    Idle::Closed
                } else {
                    Idle::Empty
                },
            )
        }
    }
}

/// The state that the host's command handlers and the socket loop share.
pub struct Bridge {
    outbound: BoundedQueue<Action>,
    inbound: BoundedQueue<Response>,
    gate: LoginGate,
    closed: bool,
}

impl View for Bridge {
    type V = BridgeView;

    closed spec fn view(&self) -> BridgeView {
        BridgeView {
            outbound: self.outbound@,
            outbound_capacity: self.outbound.spec_capacity(),
            inbound: self.inbound@,
            inbound_capacity: self.inbound.spec_capacity(),
            gate: self.gate@,
            closed: self.closed,
        }
    }
}

impl Bridge {
    /// Makes a bridge with empty queues of the given capacities, an open
    /// connection and a login gate that waits.
    pub fn new(outbound_capacity: usize, inbound_capacity: usize) -> (bridge: Self)
        ensures
            bridge@ == BridgeView::initial(outbound_capacity as nat, inbound_capacity as nat),
    {
        Bridge {
            outbound: BoundedQueue::new(outbound_capacity),
            inbound: BoundedQueue::new(inbound_capacity),
            gate: LoginGate::new(),
            closed: false,
        }
    }

    /// Where the login handshake stands.
    pub fn gate_state(&self) -> (state: GateState)
        ensures
            state == self@.gate.state(),
    {
        self.gate.state()
    }

    /// Whether the connection is closed.
    pub fn is_closed(&self) -> (closed: bool)
        ensures
            closed == self@.closed,
    {
        self.closed
    }

    /// The number of actions that wait to be written.
    pub fn outbound_len(&self) -> (len: usize)
        ensures
            len == self@.outbound.len(),
            self@.wf(),
    {
        proof {
            use_type_invariant(&self.inbound);
        }
        self.outbound.len()
    }

    /// The number of responses that wait to be consumed.
    pub fn inbound_len(&self) -> (len: usize)
        ensures
            len == self@.inbound.len(),
            self@.wf(),
    {
        proof {
            use_type_invariant(&self.outbound);
        }
        self.inbound.len()
    }

    /// Queues `action` for the writer.
    ///
    /// The action is never dropped: it is appended behind everything
    /// submitted before it, or handed back, with the bridge unchanged,
    /// because the queue is full or the connection closed.
    pub fn submit(&mut self, action: Action) -> (outcome: Result<(), SubmitError>)
        ensures
            (final(self)@, outcome) == old(self)@.submit(action),
    {
        if self.closed {
            return Err(SubmitError::Closed(action));
        }
        match self.outbound.try_push(action) {
            Ok(()) => Ok(()),
            Err(action) => Err(SubmitError::Full(action)),
        }
    }

    /// Opens the handshake: queues the login under `name`.
    pub fn login(&mut self, name: String) -> (outcome: Result<(), SubmitError>)
        ensures
            (final(self)@, outcome) == old(self)@.submit(Action::Login { name }),
    {
        self.submit(Action::Login { name })
    }

    /// Queues the chat line `message`.
    pub fn send_message(&mut self, message: String) -> (outcome: Result<(), SubmitError>)
        ensures
            (final(self)@, outcome) == old(self)@.submit(Action::Send { text: message }),
    {
        self.submit(Action::Send { text: message })
    }

    /// Queues the assignment of `word`.
    pub fn assign_word(&mut self, word: String) -> (outcome: Result<(), SubmitError>)
        ensures
            (final(self)@, outcome) == old(self)@.submit(Action::AssignWord { word }),
    {
        self.submit(Action::AssignWord { word })
    }

    /// Queues the player's leaving the game on purpose.
    pub fn suicide(&mut self) -> (outcome: Result<(), SubmitError>)
        ensures
            (final(self)@, outcome) == old(self)@.submit(Action::Suicide),
    {
        self.submit(Action::Suicide)
    }

    /// Queues the request to vote on aborting the game.
    pub fn request_abort(&mut self) -> (outcome: Result<(), SubmitError>)
        ensures
            (final(self)@, outcome) == old(self)@.submit(Action::RequestAbort),
    {
        self.submit(Action::RequestAbort)
    }

    /// Queues the player's being ready.
    pub fn set_ready(&mut self) -> (outcome: Result<(), SubmitError>)
        ensures
            (final(self)@, outcome) == old(self)@.submit(Action::SetReady),
    {
        self.submit(Action::SetReady)
    }

    /// Queues the player's no longer being ready.
    pub fn cancel_ready(&mut self) -> (outcome: Result<(), SubmitError>)
        ensures
            (final(self)@, outcome) == old(self)@.submit(Action::CancelReady),
    {
        self.submit(Action::CancelReady)
    }

    /// Queues the player's vote on aborting the game.
    pub fn vote_abort(&mut self, abort: bool) -> (outcome: Result<(), SubmitError>)
        ensures
            (final(self)@, outcome) == old(self)@.submit(Action::VoteAbort { abort }),
    {
        self.submit(Action::VoteAbort { abort })
    }

    /// Takes the action that was submitted first out of the outbound queue,
    /// for the writer to put on the wire.
    pub fn next_outbound(&mut self) -> (action: Option<Action>)
        ensures
            (final(self)@, action) == old(self)@.next_outbound(),
    {
        self.outbound.pop()
    }

    /// Takes in what the reader made of one frame.
    ///
    /// A decoded response goes to the back of the inbound queue, and the
    /// result is the notification that tells the host of new data. A frame
    /// that could not be decoded changes nothing. Neither does a response
    /// that arrives while the queue is full, or after the connection was
    /// closed: it is dropped, and the host is not notified.
    pub fn on_frame(&mut self, frame: Frame) -> (notice: Option<Notification>)
        ensures
            (final(self)@, notice) == old(self)@.on_frame(frame),
    {
        match frame {
            Frame::Decoded(response) => {
                if self.closed {
                    return None;
                }
                match self.inbound.try_push(response) {
                    Ok(()) => Some(new_data()),
                    Err(_) => None,
                }
            },
            Frame::Undecodable => None,
        }
    }

    /// Records that the connection is closed, for good.
    pub fn close(&mut self)
        ensures
            final(self)@ == old(self)@.close(),
    {
        self.closed = true;
    }

    /// Tries to complete the login with the responses that are queued.
    ///
    /// See [`LoginGate::advance`], which this runs over the inbound queue.
    pub fn poll_login(&mut self) -> (poll: LoginPoll)
        ensures
            (final(self)@, poll@) == old(self)@.poll_login(),
    {
        self.gate.advance(&mut self.inbound, self.closed)
    }

    /// Takes the oldest response off the inbound queue and turns it into
    /// the notification for the host.
    ///
    /// This is one turn of the flush loop, which runs only after the login
    /// has succeeded: in any other state of the login gate nothing is taken and
    /// the result is [`Idle::Gated`]. A login result that arrives after the
    /// handshake raises no event, so it is taken and yields `Ok(None)`.
    pub fn drain_notifications(&mut self) -> (outcome: Result<Option<Notification>, Idle>)
        ensures
            (final(self)@, outcome) == old(self)@.drain(),
    {
        match self.gate.state() {
            GateState::Authenticated => {},
            _ => {
                return Err(Idle::Gated);
            },
        }
        match self.inbound.pop() {
            Some(response) => Ok(process_message(response)),
            None => {
                if self.closed {
                    Err(Idle::Closed)
                } else {
                    Err(Idle::Empty)
                }
            },
        }
    }

    /// Empties the inbound queue into notifications for the host, one for
    /// each response that raises an event, in the order of arrival, and says
    /// why it stopped.
    pub fn flush_response_queue(&mut self) -> (flushed: (Vec<Notification>, Idle))
        ensures
            (final(self)@, flushed.0@, flushed.1) == old(self)@.flush(),
    {
        let mut notifications: Vec<Notification> = Vec::new();
        loop
            invariant
                self@.gate == old(self)@.gate,
                self@.closed == old(self)@.closed,
                self@.outbound == old(self)@.outbound,
                self@.outbound_capacity == old(self)@.outbound_capacity,
                self@.inbound_capacity == old(self)@.inbound_capacity,
                self@.gate.state() != GateState::Authenticated ==> self@ == old(self)@
                    && notifications@ == Seq::<Notification>::empty(),
                notifications@ + notifications_of(self@.inbound) == notifications_of(
                    old(self)@.inbound,
                ),
            decreases self@.inbound.len(),
        {
            let ghost before = self@.inbound;
            match self.drain_notifications() {
                Ok(delivery) => {
                    let ghost so_far = notifications@;
                    match delivery {
                        Some(notification) => {
                            notifications.push(notification);
                        },
                        None => {},
                    }
                    proof {
                        let head = seq![before.first()];
                        let rest = before.drop_first();
                        lemma_notifications_concat(head, rest);
                        assert(head + rest == before);
                        assert(head.drop_last() == Seq::<Response>::empty());
                        assert(notifications_of(head.drop_last()) == Seq::<Notification>::empty());
                        assert(so_far + notifications_of(head) == notifications@);
                        assert(notifications@ + notifications_of(rest) == so_far + (
                        notifications_of(head) + notifications_of(rest)));
                    }
                },
                Err(idle) => {
                    proof {
                        if idle != Idle::Gated {
                            assert(self@.inbound == Seq::<Response>::empty());
                            assert(notifications@ + Seq::<Notification>::empty()
                                == notifications@);
                        }
                    }
                    return (notifications, idle);
                },
            }
        }
    }
}

} // verus!
