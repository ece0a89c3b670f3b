//! The login gate: the handshake that guards the first use of the
//! connection.
//!
//! Until the server has answered the login, every other response is held
//! back in arrival order. A positive answer releases what was held back; a
//! negative answer, or the loss of the connection, discards it.

use vstd::prelude::*;
use crate::notify::{notification_of, notifications_of, process_messages, Notification};
use crate::protocol::Response;
use crate::queue::BoundedQueue;

verus! {

/// Where the handshake stands.
#[derive(Debug, Clone, Copy, PartialEq, Eq, Structural)]
pub enum GateState {
    /// No login result has been seen yet.
    AwaitingResult,
    /// The server accepted the login.
    Authenticated,
    /// The server refused the login.
    Rejected,
    /// The connection was lost before the server answered.
    Disconnected,
}

/// Why a login failed.
#[derive(Debug, Clone, PartialEq, Eq)]
pub enum LoginError {
    /// The server refused the login and gave this reason.
    Rejected(String),
    /// The connection was lost before the server answered.
    Disconnected,
}

/// What one attempt to complete the handshake came to.
#[derive(Debug, Clone, PartialEq, Eq)]
pub enum LoginPoll {
    /// The server has not answered yet and nothing more is queued.
    Pending,
    /// The login succeeded; these notifications were held back meanwhile
    /// and are now due, in this order.
    Granted(Vec<Notification>),
    /// The login failed.
    Failed(LoginError),
}

/// The model of a [`LoginPoll`].
pub enum PollView {
    Pending,
    Granted(Seq<Notification>),
    Failed(LoginError),
}

impl View for LoginPoll {
    type V = PollView;

    open spec fn view(&self) -> PollView {
        match *self {
            LoginPoll::Pending => PollView::Pending,
            LoginPoll::Granted(notifications) => PollView::Granted(notifications@),
            LoginPoll::Failed(error) => PollView::Failed(error),
        }
    }
}

/// The model of a [`LoginGate`]: its state, with what the state carries.
pub enum GateView {
    /// Waiting for the login result; `buffer` holds the responses that
    /// arrived meanwhile, oldest first.
    AwaitingResult { buffer: Seq<Response> },
    Authenticated,
    /// Refused by the server for `reason`.
    Rejected { reason: String },
    Disconnected,
}

impl GateView {
    /// The login gate before anything has arrived.
    pub open spec fn initial() -> GateView {
        GateView::AwaitingResult { buffer: Seq::empty() }
    }

    /// Where the handshake stands.
    pub open spec fn state(self) -> GateState {
        match self {
            GateView::AwaitingResult { .. } => GateState::AwaitingResult,
            GateView::Authenticated => GateState::Authenticated,
            GateView::Rejected { .. } => GateState::Rejected,
            GateView::Disconnected => GateState::Disconnected,
        }
    }

    /// The responses that are held back.
    pub open spec fn buffer(self) -> Seq<Response> {
        match self {
            GateView::AwaitingResult { buffer } => buffer,
            _ => Seq::empty(),
        }
    }

    /// What a gate that is no longer waiting reports, again and again.
    pub open spec fn settled(self) -> PollView {
        match self {
            GateView::AwaitingResult { .. } => PollView::Pending,
            GateView::Authenticated => PollView::Granted(Seq::empty()),
            GateView::Rejected { reason } => PollView::Failed(LoginError::Rejected(reason)),
            GateView::Disconnected => PollView::Failed(LoginError::Disconnected),
        }
    }

    /// Runs the handshake over `inbound`, the responses that are queued,
    /// oldest first; `closed` says that no more will come.
    ///
    /// The result is the login gate afterwards, what is left of the queue, and
    /// the outcome. A waiting gate takes responses off the queue until it
    /// finds a login result or the queue runs dry; a gate that is no longer
    /// waiting takes nothing.
    pub open spec fn advance(self, inbound: Seq<Response>, closed: bool) -> (
        GateView,
        Seq<Response>,
        PollView,
    )
        decreases inbound.len(),
    {
        match self {
            GateView::AwaitingResult { buffer } => {
                if inbound.len() == 0 {
                    if closed {
                        (
                            GateView::Disconnected,
                            inbound,
                            PollView::Failed(LoginError::Disconnected),
                        )
                    } else {
                        (self, inbound, PollView::Pending)
                    }
                } else {
                    match inbound.first() {
                        Response::LoginResult { excuse: None } => (
                            GateView::Authenticated,
                            inbound.drop_first(),
                            PollView::Granted(notifications_of(buffer)),
                        ),
                        Response::LoginResult { excuse: Some(reason) } => (
                            GateView::Rejected { reason },
                            inbound.drop_first(),
                            PollView::Failed(LoginError::Rejected(reason)),
                        ),
                        other => (GateView::AwaitingResult { buffer: buffer.push(other) }).advance(
                            inbound.drop_first(),
                            closed,
                        ),
                    }
                }
            },
            _ => (self, inbound, self.settled()),
        }
    }
}

/// Whether none of `responses` is a login result.
pub open spec fn no_login_result(responses: Seq<Response>) -> bool {
    forall|i: int| 0 <= i < responses.len() ==> !(#[trigger] responses[i] is LoginResult)
}

/// Responses other than login results become notifications one for one:
/// as many notifications as responses, each that of the response in its
/// place.
pub proof fn law_notifications_one_for_one(responses: Seq<Response>)
    requires
        no_login_result(responses),
    ensures
        notifications_of(responses).len() == responses.len(),
        forall|i: int|
            0 <= i < responses.len() ==> notification_of(#[trigger] responses[i]) == Some(
                notifications_of(responses)[i],
            ),
    decreases responses.len(),
{
    if responses.len() > 0 {
        let earlier = responses.drop_last();
        assert(no_login_result(earlier)) by {
            assert forall|i: int| 0 <= i < earlier.len() implies !(#[trigger] earlier[i]
                is LoginResult) by {
                assert(earlier[i] == responses[i]);
            }
        }
        law_notifications_one_for_one(earlier);
        assert(!(responses[responses.len() - 1] is LoginResult));
        assert forall|i: int| 0 <= i < responses.len() implies notification_of(
            #[trigger] responses[i],
        ) == Some(notifications_of(responses)[i]) by {
            if i < earlier.len() {
                assert(earlier[i] == responses[i]);
            }
        }
    }
}

/// The login gate while it waits: as long as no login result arrives, it holds
/// back everything in arrival order and delivers nothing. When the queue
/// runs dry it asks to be called again, or gives up if the connection is
/// closed.
pub proof fn law_handshake_waiting(buffer: Seq<Response>, held: Seq<Response>, closed: bool)
    requires
        no_login_result(held),
    ensures
        (GateView::AwaitingResult { buffer }).advance(held, closed) == if closed {
            (GateView::Disconnected, Seq::<Response>::empty(), PollView::Failed(LoginError::Disconnected))
        } else {
            (
                GateView::AwaitingResult { buffer: buffer + held },
                Seq::<Response>::empty(),
                PollView::Pending,
            )
        },
    decreases held.len(),
{
    if held.len() == 0 {
        assert(buffer + held == buffer);
        assert(held == Seq::<Response>::empty());
    } else {
        assert(!(held[0] is LoginResult));
        let rest = held.drop_first();
        assert(no_login_result(rest)) by {
            assert forall|i: int| 0 <= i < rest.len() implies !(#[trigger] rest[i]
                is LoginResult) by {
                assert(rest[i] == held[i + 1]);
            }
        }
        law_handshake_waiting(buffer.push(held.first()), rest, closed);
        assert(buffer.push(held.first()) + rest == buffer + held);
    }
}

/// Handshake buffering: whatever arrives before a login result without an
/// excuse is held back, and that login result releases it. The outcome is
/// success with the notifications of all that was held back, in arrival
/// order; the login gate is open; and what arrived after the login result is
/// still queued, untouched.
pub proof fn law_handshake_buffering(
    buffer: Seq<Response>,
    held: Seq<Response>,
    later: Seq<Response>,
    closed: bool,
)
    requires
        no_login_result(held),
    ensures
        (GateView::AwaitingResult { buffer }).advance(
            held + seq![Response::LoginResult { excuse: None }] + later,
            closed,
        ) == (GateView::Authenticated, later, PollView::Granted(notifications_of(buffer + held))),
    decreases held.len(),
{
    let inbound = held + seq![Response::LoginResult { excuse: None }] + later;
    if held.len() == 0 {
        assert(buffer + held == buffer);
        assert(inbound.first() == Response::LoginResult { excuse: None });
        assert(inbound.drop_first() == later);
    } else {
        assert(!(held[0] is LoginResult));
        assert(inbound.first() == held[0]);
        let rest = held.drop_first();
        assert(no_login_result(rest)) by {
            assert forall|i: int| 0 <= i < rest.len() implies !(#[trigger] rest[i]
                is LoginResult) by {
                assert(rest[i] == held[i + 1]);
            }
        }
        law_handshake_buffering(buffer.push(held.first()), rest, later, closed);
        assert(inbound.drop_first() == rest + seq![Response::LoginResult { excuse: None }]
            + later);
        assert(buffer.push(held.first()) + rest == buffer + held);
    }
}

/// Handshake rejection: a login result with an excuse fails the login with
/// exactly that excuse, however much was held back before it. Nothing is
/// delivered, what was held back is gone with the waiting state, and what
/// arrived after the login result is still queued, untouched.
pub proof fn law_handshake_rejection(
    buffer: Seq<Response>,
    held: Seq<Response>,
    reason: String,
    later: Seq<Response>,
    closed: bool,
)
    requires
        no_login_result(held),
    ensures
        (GateView::AwaitingResult { buffer }).advance(
            held + seq![Response::LoginResult { excuse: Some(reason) }] + later,
            closed,
        ) == (
            GateView::Rejected { reason },
            later,
            PollView::Failed(LoginError::Rejected(reason)),
        ),
    decreases held.len(),
{
    let inbound = held + seq![Response::LoginResult { excuse: Some(reason) }] + later;
    if held.len() == 0 {
        assert(inbound.first() == Response::LoginResult { excuse: Some(reason) });
        assert(inbound.drop_first() == later);
    } else {
        assert(!(held[0] is LoginResult));
        assert(inbound.first() == held[0]);
        let rest = held.drop_first();
        assert(no_login_result(rest)) by {
            assert forall|i: int| 0 <= i < rest.len() implies !(#[trigger] rest[i]
                is LoginResult) by {
                assert(rest[i] == held[i + 1]);
            }
        }
        law_handshake_rejection(buffer.push(held.first()), rest, reason, later, closed);
        assert(inbound.drop_first() == rest + seq![
            Response::LoginResult { excuse: Some(reason) },
        ] + later);
    }
}

/// Every run of responses splits at its first login result: the result is
/// the length of the longest prefix that holds none.
pub proof fn lemma_first_login_result(responses: Seq<Response>) -> (at: int)
    ensures
        0 <= at <= responses.len(),
        no_login_result(responses.take(at)),
        at < responses.len() ==> responses[at] is LoginResult,
    decreases responses.len(),
{
    if responses.len() == 0 {
        0
    } else if responses[0] is LoginResult {
        0
    } else {
        let rest = responses.drop_first();
        let at = lemma_first_login_result(rest);
        assert forall|i: int| 0 <= i < responses.take(at + 1).len() implies !(
        #[trigger] responses.take(at + 1)[i] is LoginResult) by {
            if i > 0 {
                assert(responses.take(at + 1)[i] == rest.take(at)[i - 1]);
            }
        }
        at + 1
    }
}

enum Phase {
    Awaiting(Vec<Response>),
    Authenticated,
    Rejected(String),
    Disconnected,
}

/// The one-shot handshake state machine.
///
/// It starts out waiting, and leaves that state at most once: for
/// [`GateState::Authenticated`], [`GateState::Rejected`] or
/// [`GateState::Disconnected`], where it stays.
pub struct LoginGate {
    phase: Phase,
}

impl View for LoginGate {
    type V = GateView;

    closed spec fn view(&self) -> GateView {
        match self.phase {
            Phase::Awaiting(buffer) => GateView::AwaitingResult { buffer: buffer@ },
            Phase::Authenticated => GateView::Authenticated,
            Phase::Rejected(reason) => GateView::Rejected { reason },
            Phase::Disconnected => GateView::Disconnected,
        }
    }
}

impl LoginGate {
    /// Makes a gate that waits for the login result and holds nothing back
    /// yet.
    pub fn new() -> (gate: Self)
        ensures
            gate@ == GateView::initial(),
    {
        LoginGate { phase: Phase::Awaiting(Vec::new()) }
    }

    /// Where the handshake stands.
    pub fn state(&self) -> (state: GateState)
        ensures
            state == self@.state(),
    {
        match &self.phase {
            Phase::Awaiting(_) => GateState::AwaitingResult,
            Phase::Authenticated => GateState::Authenticated,
            Phase::Rejected(_) => GateState::Rejected,
            Phase::Disconnected => GateState::Disconnected,
        }
    }

    /// The number of responses that are held back.
    pub fn buffered(&self) -> (count: usize)
        ensures
            count == self@.buffer().len(),
    {
        match &self.phase {
            Phase::Awaiting(buffer) => buffer.len(),
            _ => 0,
        }
    }

    /// Runs the handshake over the responses queued in `inbound`; `closed`
    /// says that no more will come.
    ///
    /// While the login gate waits, it takes responses off the queue, oldest first.
    /// A login result without an excuse opens the login gate: the outcome carries
    /// the notifications for everything held back, in arrival order. A login
    /// result with an excuse shuts it: what was held back is discarded and
    /// the outcome carries the excuse. Any other response is held back. When
    /// the queue runs dry the outcome is [`LoginPoll::Pending`], or, if the
    /// connection is closed, a failure for which the buffer is discarded.
    ///
    /// Once the login gate has left the waiting state it takes nothing off the
    /// queue and repeats how the handshake ended, with nothing to replay.
    pub fn advance(&mut self, inbound: &mut BoundedQueue<Response>, closed: bool) -> (poll:
        LoginPoll)
        ensures
            (final(self)@, final(inbound)@, poll@) == old(self)@.advance(old(inbound)@, closed),
            final(inbound).spec_capacity() == old(inbound).spec_capacity(),
    {
        loop
            invariant
                self@.advance(inbound@, closed) == old(self)@.advance(old(inbound)@, closed),
                inbound.spec_capacity() == old(inbound).spec_capacity(),
            decreases inbound@.len(),
        {
            let mut phase = Phase::Disconnected;
            core::mem::swap(&mut self.phase, &mut phase);
            match phase {
                Phase::Awaiting(mut buffer) => {
                    match inbound.pop() {
                        None => {
                            if closed {
                                return LoginPoll::Failed(LoginError::Disconnected);
                            } else {
                                self.phase = Phase::Awaiting(buffer);
                                return LoginPoll::Pending;
                            }
                        },
                        Some(Response::LoginResult { excuse: None }) => {
                            self.phase = Phase::Authenticated;
                            return LoginPoll::Granted(process_messages(buffer));
                        },
                        Some(Response::LoginResult { excuse: Some(reason) }) => {
                            self.phase = Phase::Rejected(reason.clone());
                            return LoginPoll::Failed(LoginError::Rejected(reason));
                        },
                        Some(other) => {
                            buffer.push(other);
                            self.phase = Phase::Awaiting(buffer);
                        },
                    }
                },
                Phase::Authenticated => {
                    self.phase = Phase::Authenticated;
                    return LoginPoll::Granted(Vec::new());
                },
                Phase::Rejected(reason) => {
                    self.phase = Phase::Rejected(reason.clone());
                    return LoginPoll::Failed(LoginError::Rejected(reason));
                },
                Phase::Disconnected => {
                    return LoginPoll::Failed(LoginError::Disconnected);
                },
            }
        }
    }
}

impl LoginError {
    /// The text that the host shows for a login that failed for want of a
    /// connection.
    pub open spec fn transport_failure() -> Seq<char> {
        "网络异常，请重启应用"@
    }

    /// What the host is told: the server's reason word for word, or the
    /// general transport failure text.
    pub fn message(self) -> (text: String)
        ensures
            match self {
                LoginError::Rejected(reason) => text == reason,
                LoginError::Disconnected => text@ == LoginError::transport_failure(),
            },
    {
        match self {
            LoginError::Rejected(reason) => reason,
            LoginError::Disconnected => "网络异常，请重启应用".to_owned(),
        }
    }
}

} // verus!
