//! Core of a multi-client text relay.
//!
//! A server rebroadcasts every text message it receives to all clients that are
//! currently connected. Messages travel as fixed-width frames. This crate holds
//! the framing and the decisions of the tasks that move frames around: what a
//! receiver does with the outcome of a read, which connections a broadcast is
//! written to and which of them stay on the roster afterwards, and when a client
//! session ends. Sockets, threads and channels are the caller's business: the
//! caller performs the I/O and reports its outcome, and the functions here say
//! what happens next.

pub mod dispatch;
pub mod frame;
pub mod input;
pub mod mode;
pub mod receiver;
pub mod roster;

use vstd::prelude::*;

verus! {

/// Width in bytes of every frame on the wire.
pub const MSG_SIZE: usize = 32;

/// Pause between two polls of a socket or a channel, in milliseconds.
pub const POLL_INTERVAL_MS: u64 = 100;

/// Address the server listens on and the clients connect to.
pub const LOCAL: &'static str = "127.0.0.1:6000";

} // verus!
