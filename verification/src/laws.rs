//! What holds of a bridge over every course of events.
//!
//! A course of events is a sequence of [`Step`]s: one step for each call
//! that the host, the socket reader or the socket writer can make. [`play`]
//! plays a course against the model of a bridge and collects what the
//! calls brought about, and the laws below speak of every such course.

use vstd::prelude::*;
use crate::bridge::{BridgeView, Frame};
use crate::gate::{
    law_handshake_buffering,
    law_handshake_rejection,
    law_handshake_waiting,
    lemma_first_login_result,
    GateState,
    GateView,
    PollView,
};
use crate::notify::{
    lemma_notifications_concat,
    lemma_notifications_single,
    notification_of,
    notifications_of,
    Notification,
};
use crate::protocol::{Action, Response};

verus! {

/// One call on the bridge.
pub enum Step {
    /// The host submits an action.
    Submit(Action),
    /// The writer takes the next action.
    Write,
    /// The reader hands over a frame.
    Arrive(Frame),
    /// The connection is closed.
    Close,
    /// The host tries to complete the login.
    PollLogin,
    /// The host asks for the next notification.
    Drain,
    /// The host asks for every notification that is due.
    Flush,
}

/// What a course of events brought about, each part in order of time.
#[verifier::ext_equal]
pub struct Effects {
    /// The actions that were accepted into the outbound queue.
    pub accepted: Seq<Action>,
    /// The actions that were handed to the writer.
    pub written: Seq<Action>,
    /// The responses that were accepted into the inbound queue.
    pub queued: Seq<Response>,
    /// The notifications that were handed to the host for responses.
    pub delivered: Seq<Notification>,
}

impl Effects {
    /// Nothing happened.
    pub open spec fn none() -> Effects {
        Effects {
            accepted: Seq::empty(),
            written: Seq::empty(),
            queued: Seq::empty(),
            delivered: Seq::empty(),
        }
    }

    /// These effects, followed by `later`.
    pub open spec fn followed_by(self, later: Effects) -> Effects {
        Effects {
            accepted: self.accepted + later.accepted,
            written: self.written + later.written,
            queued: self.queued + later.queued,
            delivered: self.delivered + later.delivered,
        }
    }
}

/// The sequence that holds `item` if there is one, and nothing otherwise.
pub open spec fn maybe<T>(item: Option<T>) -> Seq<T> {
    match item {
        Some(item) => seq![item],
        None => Seq::empty(),
    }
}

/// Makes one call on the bridge: the bridge afterwards, and what the call
/// brought about.
pub open spec fn step(bridge: BridgeView, step: Step) -> (BridgeView, Effects) {
    match step {
        Step::Submit(action) => {
            let (after, outcome) = bridge.submit(action);
            (
                after,
                Effects {
                    accepted: if outcome is Ok {
                        seq![action]
                    } else {
                        Seq::empty()
                    },
                    ..Effects::none()
                },
            )
        },
        Step::Write => {
            let (after, action) = bridge.next_outbound();
            (after, Effects { written: maybe(action), ..Effects::none() })
        },
        Step::Arrive(frame) => {
            let (after, notice) = bridge.on_frame(frame);
            (
                after,
                Effects {
                    queued: match frame {
                        Frame::Decoded(response) if notice is Some => seq![response],
                        _ => Seq::empty(),
                    },
                    ..Effects::none()
                },
            )
        },
        Step::Close => (bridge.close(), Effects::none()),
        Step::PollLogin => {
            let (after, poll) = bridge.poll_login();
            (
                after,
                Effects {
                    delivered: match poll {
                        PollView::Granted(notifications) => notifications,
                        _ => Seq::empty(),
                    },
                    ..Effects::none()
                },
            )
        },
        Step::Drain => {
            let (after, outcome) = bridge.drain();
            (
                after,
                Effects {
                    delivered: match outcome {
                        Ok(delivery) => maybe(delivery),
                        Err(_) => Seq::empty(),
                    },
                    ..Effects::none()
                },
            )
        },
        Step::Flush => {
            let (after, notifications, _) = bridge.flush();
            (after, Effects { delivered: notifications, ..Effects::none() })
        },
    }
}

/// Makes the calls of `steps` on the bridge, one after the other: the
/// bridge afterwards, and all that the calls brought about.
pub open spec fn play(bridge: BridgeView, steps: Seq<Step>) -> (BridgeView, Effects)
    decreases steps.len(),
{
    if steps.len() == 0 {
        (bridge, Effects::none())
    } else {
        let (before, earlier) = play(bridge, steps.drop_last());
        let (after, latest) = step(before, steps.last());
        (after, earlier.followed_by(latest))
    }
}

/// What holds between the outbound queue and a course's effects: the
/// actions that were queued or accepted are those written, followed by those
/// still queued.
pub open spec fn outbound_conserved(
    start: BridgeView,
    after: BridgeView,
    effects: Effects,
) -> bool {
    start.outbound + effects.accepted == effects.written + after.outbound
}

/// Order preservation, outbound. Over every course of events, the actions
/// handed to the writer are, in order, the first of those that stood in the
/// outbound queue or were accepted into it: none is lost, repeated or
/// overtaken, and what was not written yet still waits, in order.
pub proof fn law_outbound_order(bridge: BridgeView, steps: Seq<Step>)
    ensures
        outbound_conserved(bridge, play(bridge, steps).0, play(bridge, steps).1),
    decreases steps.len(),
{
    if steps.len() == 0 {
        assert(bridge.outbound + Seq::<Action>::empty() == Seq::<Action>::empty()
            + bridge.outbound);
    } else {
        law_outbound_order(bridge, steps.drop_last());
        let (before, earlier) = play(bridge, steps.drop_last());
        let (after, latest) = step(before, steps.last());
        assert(before.outbound + latest.accepted == latest.written + after.outbound);
        assert(bridge.outbound + (earlier.accepted + latest.accepted) == (bridge.outbound
            + earlier.accepted) + latest.accepted);
        assert((earlier.written + before.outbound) + latest.accepted == earlier.written + (
        before.outbound + latest.accepted));
        assert(earlier.written + (latest.written + after.outbound) == (earlier.written
            + latest.written) + after.outbound);
    }
}

/// Neither queue ever holds more than its capacity, and the capacities
/// never change.
pub proof fn law_queues_bounded(bridge: BridgeView, steps: Seq<Step>)
    requires
        bridge.wf(),
    ensures
        play(bridge, steps).0.wf(),
        play(bridge, steps).0.outbound_capacity == bridge.outbound_capacity,
        play(bridge, steps).0.inbound_capacity == bridge.inbound_capacity,
    decreases steps.len(),
{
    if steps.len() > 0 {
        law_queues_bounded(bridge, steps.drop_last());
        let before = play(bridge, steps.drop_last()).0;
        match steps.last() {
            Step::PollLogin => {
                lemma_advance_takes_a_prefix(before.gate, before.inbound, before.closed);
            },
            _ => {},
        }
    }
}

/// What a login attempt takes off the queue is a prefix of the queue: what
/// it leaves is the rest.
pub proof fn lemma_advance_takes_a_prefix(gate: GateView, inbound: Seq<Response>, closed: bool)
    ensures
        gate.advance(inbound, closed).1.len() <= inbound.len(),
        gate.advance(inbound, closed).1 == inbound.skip(
            inbound.len() - gate.advance(inbound, closed).1.len(),
        ),
    decreases inbound.len(),
{
    match gate {
        GateView::AwaitingResult { buffer } => {
            if inbound.len() > 0 {
                let rest = inbound.drop_first();
                if !(inbound.first() is LoginResult) {
                    let next = GateView::AwaitingResult { buffer: buffer.push(inbound.first()) };
                    lemma_advance_takes_a_prefix(next, rest, closed);
                    let left = next.advance(rest, closed).1;
                    assert(rest.skip(rest.len() - left.len()) == inbound.skip(
                        inbound.len() - left.len(),
                    ));
                } else {
                    assert(rest == inbound.skip(1));
                }
            } else {
                assert(inbound == inbound.skip(0));
            }
        },
        _ => {
            assert(inbound == inbound.skip(0));
        },
    }
}

/// One handshake. Once the login gate has left the waiting state it stays as it
/// is, whatever happens.
pub proof fn law_gate_settles_once(bridge: BridgeView, steps: Seq<Step>)
    requires
        bridge.gate.state() != GateState::AwaitingResult,
    ensures
        play(bridge, steps).0.gate == bridge.gate,
    decreases steps.len(),
{
    if steps.len() > 0 {
        law_gate_settles_once(bridge, steps.drop_last());
    }
}

/// What holds between the responses that a bridge accepted since it was
/// made and the notifications that it handed to the host.
///
/// While the login gate waits, nothing was delivered, and what was accepted is
/// held back or still queued, in order of arrival. Once the login has
/// succeeded, what was delivered, followed by what is due for the responses
/// still queued, is what is due for all the responses accepted: one
/// notification for each response that raises an event, in order of
/// arrival. After a failed login nothing was delivered.
pub open spec fn delivery_follows_arrival(after: BridgeView, effects: Effects) -> bool {
    match after.gate {
        GateView::AwaitingResult { buffer } => {
            &&& effects.delivered == Seq::<Notification>::empty()
            &&& effects.queued == buffer + after.inbound
        },
        GateView::Authenticated => notifications_of(effects.queued) == effects.delivered
            + notifications_of(after.inbound),
        _ => effects.delivered == Seq::<Notification>::empty(),
    }
}

proof fn lemma_login_keeps_delivery_in_order(before: BridgeView, earlier: Effects)
    requires
        delivery_follows_arrival(before, earlier),
    ensures
        delivery_follows_arrival(
            step(before, Step::PollLogin).0,
            earlier.followed_by(step(before, Step::PollLogin).1),
        ),
{
    let (after, latest) = step(before, Step::PollLogin);
    let total = earlier.followed_by(latest);
    assert(total.queued == earlier.queued);
    match before.gate {
        GateView::AwaitingResult { buffer } => {
            let inbound = before.inbound;
            let at = lemma_first_login_result(inbound);
            let held = inbound.take(at);
            if at == inbound.len() {
                assert(held == inbound);
                law_handshake_waiting(buffer, inbound, before.closed);
                assert(total.delivered == Seq::<Notification>::empty());
                if !before.closed {
                    assert(buffer + inbound + Seq::<Response>::empty() == buffer + inbound);
                }
            } else {
                let later = inbound.skip(at + 1);
                let answer = inbound[at];
                assert(inbound == held + seq![answer] + later);
                match answer {
                    Response::LoginResult { excuse: None } => {
                        law_handshake_buffering(buffer, held, later, before.closed);
                        assert(earlier.queued == (buffer + held) + seq![answer] + later);
                        lemma_notifications_concat((buffer + held) + seq![answer], later);
                        lemma_notifications_concat(buffer + held, seq![answer]);
                        lemma_notifications_single(answer);
                        assert(notifications_of(buffer + held) + Seq::<Notification>::empty()
                            == notifications_of(buffer + held));
                        assert(total.delivered == notifications_of(buffer + held));
                    },
                    Response::LoginResult { excuse: Some(reason) } => {
                        law_handshake_rejection(buffer, held, reason, later, before.closed);
                        assert(total.delivered == Seq::<Notification>::empty());
                    },
                    _ => {},
                }
            }
        },
        GateView::Authenticated => {
            assert(total.delivered == earlier.delivered);
        },
        _ => {
            assert(total.delivered == Seq::<Notification>::empty());
        },
    }
}

proof fn lemma_step_keeps_delivery_in_order(before: BridgeView, earlier: Effects, next: Step)
    requires
        delivery_follows_arrival(before, earlier),
    ensures
        delivery_follows_arrival(step(before, next).0, earlier.followed_by(step(before, next).1)),
{
    let (after, latest) = step(before, next);
    let total = earlier.followed_by(latest);
    match next {
        Step::Submit(_) | Step::Write | Step::Close => {
            assert(total.queued == earlier.queued);
            assert(total.delivered == earlier.delivered);
        },
        Step::Arrive(frame) => {
            assert(total.delivered == earlier.delivered);
            if latest.queued.len() == 0 {
                assert(total.queued == earlier.queued);
            } else {
                let response = frame->Decoded_0;
                assert(after.inbound == before.inbound + seq![response]);
                match before.gate {
                    GateView::AwaitingResult { buffer } => {
                        assert(total.queued == buffer + after.inbound);
                    },
                    GateView::Authenticated => {
                        lemma_notifications_concat(earlier.queued, seq![response]);
                        lemma_notifications_concat(before.inbound, seq![response]);
                        assert(notifications_of(total.queued) == earlier.delivered + (
                        notifications_of(before.inbound) + notifications_of(seq![response])));
                    },
                    _ => {},
                }
            }
        },
        Step::PollLogin => {
            lemma_login_keeps_delivery_in_order(before, earlier);
        },
        Step::Drain => {
            assert(total.queued == earlier.queued);
            if latest.delivered.len() == 0 && after.inbound == before.inbound {
                assert(total.delivered == earlier.delivered);
            } else {
                let head = seq![before.inbound.first()];
                let rest = before.inbound.drop_first();
                assert(head + rest == before.inbound);
                lemma_notifications_concat(head, rest);
                lemma_notifications_single(before.inbound.first());
                assert(notifications_of(head) == maybe(notification_of(before.inbound.first())));
                assert(earlier.delivered + (notifications_of(head) + notifications_of(rest)) == (
                earlier.delivered + notifications_of(head)) + notifications_of(rest));
            }
        },
        Step::Flush => {
            assert(total.queued == earlier.queued);
            match before.gate {
                GateView::Authenticated => {
                    assert(total.delivered + notifications_of(Seq::<Response>::empty())
                        == total.delivered);
                },
                _ => {
                    assert(total.delivered == earlier.delivered);
                },
            }
        },
    }
}

/// Order preservation, inbound. Over every course of events that a bridge
/// goes through from the moment it is made, what reaches the host follows
/// what arrived: see [`delivery_follows_arrival`]. In particular nothing is
/// delivered before the login has succeeded; what was held back during the
/// handshake is delivered first and in arrival order; what arrives later is
/// delivered after it, one notification for each response, in arrival
/// order; and after a failed login nothing is ever delivered.
pub proof fn law_inbound_order(
    outbound_capacity: nat,
    inbound_capacity: nat,
    steps: Seq<Step>,
)
    ensures
        delivery_follows_arrival(
            play(BridgeView::initial(outbound_capacity, inbound_capacity), steps).0,
            play(BridgeView::initial(outbound_capacity, inbound_capacity), steps).1,
        ),
    decreases steps.len(),
{
    let start = BridgeView::initial(outbound_capacity, inbound_capacity);
    if steps.len() == 0 {
        assert(Seq::<Response>::empty() + Seq::<Response>::empty() == Seq::<Response>::empty());
    } else {
        law_inbound_order(outbound_capacity, inbound_capacity, steps.drop_last());
        let (before, earlier) = play(start, steps.drop_last());
        lemma_step_keeps_delivery_in_order(before, earlier, steps.last());
    }
}

/// Whether `step` hands over a frame that could not be decoded.
pub open spec fn is_undecodable(step: Step) -> bool {
    step == Step::Arrive(Frame::Undecodable)
}

/// Malformed-frame resilience. A frame that cannot be decoded changes
/// nothing and brings nothing about, so a course of events comes to the
/// same bridge and the same effects as the course without its undecodable
/// frames: such a frame is never delivered and never keeps a later frame
/// from being processed.
pub proof fn law_undecodable_frames_vanish(bridge: BridgeView, steps: Seq<Step>)
    ensures
        step(bridge, Step::Arrive(Frame::Undecodable)) == (bridge, Effects::none()),
        play(bridge, steps) == play(bridge, steps.filter(|step: Step| !is_undecodable(step))),
    decreases steps.len(),
{
    let keep = |step: Step| !is_undecodable(step);
    reveal(Seq::filter);
    if steps.len() > 0 {
        law_undecodable_frames_vanish(bridge, steps.drop_last());
        let (before, earlier) = play(bridge, steps.drop_last());
        let kept = steps.drop_last().filter(keep);
        if keep(steps.last()) {
            assert(steps.filter(keep) == kept.push(steps.last()));
            assert(steps.filter(keep).drop_last() == kept);
            assert(steps.filter(keep).last() == steps.last());
        } else {
            assert(steps.filter(keep) == kept);
            assert(earlier.followed_by(Effects::none()) == earlier);
        }
    }
}

} // verus!
