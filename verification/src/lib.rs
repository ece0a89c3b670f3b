//! A client-side network bridge for a turn-based word game.
//!
//! The bridge sits between a host application and one game server
//! connection. Actions submitted by the host travel out through a bounded
//! queue; responses read from the server travel in through a second bounded
//! queue, pass the login gate, and reach the host as notifications.
//!
//! Nothing in this crate performs input or output: a [`bridge::Bridge`] is a
//! state machine that is told what happened on the socket and says what the
//! host must be told.

pub mod bridge;
pub mod endpoint;
pub mod gate;
pub mod laws;
pub mod notify;
pub mod protocol;
pub mod queue;
