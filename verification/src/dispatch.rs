//! The loops that write to connections.
//!
//! The server's loop turns round in cycles. In each cycle it takes in at most
//! one new connection and at most one message that a receiver handed on; a
//! message is framed once and broadcast to the whole roster, the connection of
//! this cycle included. The client's loop polls the channel that carries the
//! operator's messages and writes each one to the server; it ends when the
//! channel is closed or a write fails. The caller accepts, starts a receiver
//! for each connection it accepted, polls, writes and sleeps; the functions
//! here say what to do with what came of it.

use vstd::prelude::*;
use crate::frame::{encode_to_width, encoded, Frame};
use crate::roster::{Broadcast, BroadcastView, Roster};

pub mod laws;

verus! {

/// What the server does in the rest of a cycle.
#[derive(Debug)]
pub enum Cycle<H> {
    /// Nothing to relay: pause for `POLL_INTERVAL_MS`, then start the next
    /// cycle with this roster.
    Idle(Roster<H>),
    /// Carry out this broadcast, pause for `POLL_INTERVAL_MS`, then start the
    /// next cycle with the roster that the broadcast leaves.
    Relay(Broadcast<H>),
}

/// A cycle's plan over the views of what it holds.
pub enum CycleView<H> {
    Idle(Seq<H>),
    Relay(BroadcastView<H>),
}

impl<H> View for Cycle<H> {
    type V = CycleView<H>;

    open spec fn view(&self) -> CycleView<H> {
        match self {
            Cycle::Idle(roster) => CycleView::Idle(roster@),
            Cycle::Relay(pass) => CycleView::Relay(pass@),
        }
    }
}

/// The roster with the connection accepted in this cycle, if there is one, as
/// its last entry.
pub open spec fn joined<H>(roster: Seq<H>, accepted: Option<H>) -> Seq<H> {
    match accepted {
        Some(handle) => roster.push(handle),
        None => roster,
    }
}

/// The server's rule for one cycle: the new connection joins the roster first;
/// then a pending message, framed at `width` bytes, goes out to every entry.
pub open spec fn server_plan<H>(
    roster: Seq<H>,
    accepted: Option<H>,
    inbound: Option<Seq<char>>,
    width: nat,
) -> CycleView<H> {
    match inbound {
        Some(text) => CycleView::Relay(
            BroadcastView {
                frame: encoded(text, width),
                waiting: joined(roster, accepted),
                kept: Seq::empty(),
            },
        ),
        None => CycleView::Idle(joined(roster, accepted)),
    }
}

/// The characters of a text that may be absent.
pub open spec fn text_of(text: Option<String>) -> Option<Seq<char>> {
    match text {
        Some(text) => Some(text@),
        None => None,
    }
}

/// Plans one cycle of the server's loop from what its polls brought: the write
/// handle of a connection that was accepted, if any, and the message that was
/// pending, if any.
pub fn server_cycle<H>(
    roster: Roster<H>,
    accepted: Option<H>,
    inbound: Option<String>,
    width: usize,
) -> (plan: Cycle<H>)
    ensures
        plan@ == server_plan(roster@, accepted, text_of(inbound), width as nat),
{
    let mut roster = roster;
    if let Some(handle) = accepted {
        roster.register(handle);
    }
    match inbound {
        Some(text) => Cycle::Relay(roster.broadcast(encode_to_width(text.as_str(), width))),
        None => Cycle::Idle(roster),
    }
}

/// What a poll of the channel with the operator's messages brought.
#[derive(Debug, Clone, PartialEq, Eq)]
pub enum OutboundPoll {
    /// A message to send.
    Message(String),
    /// Nothing is pending.
    Empty,
    /// The channel is closed: no message will come any more.
    Closed,
}

/// What the client's loop is told.
#[derive(Debug, Clone, PartialEq, Eq)]
pub enum SessionEvent {
    /// The channel was polled.
    Polled(OutboundPoll),
    /// The frame was written to the server, or the write failed.
    Written(bool),
}

/// Where the client's loop stands.
#[derive(Debug, Clone, Copy, PartialEq, Eq, Structural)]
pub enum SessionState {
    /// Polling and writing.
    Open,
    /// Over. There is no way back.
    Ended,
}

/// What the client's loop does next.
#[derive(Debug, Clone, PartialEq, Eq)]
pub enum SessionAction {
    /// Write this frame to the server and report how it went.
    Write(Frame),
    /// Pause for `POLL_INTERVAL_MS`, then poll the channel again.
    Pause,
    /// Leave the loop.
    Exit,
}

/// An event with the message as its characters.
pub enum SessionEventView {
    Message(Seq<char>),
    Empty,
    Closed,
    Written(bool),
}

/// An action with the frame as its bytes.
pub enum SessionActionView {
    Write(Seq<u8>),
    Pause,
    Exit,
}

impl View for SessionEvent {
    type V = SessionEventView;

    open spec fn view(&self) -> SessionEventView {
        match self {
            SessionEvent::Polled(OutboundPoll::Message(text)) => SessionEventView::Message(text@),
            SessionEvent::Polled(OutboundPoll::Empty) => SessionEventView::Empty,
            SessionEvent::Polled(OutboundPoll::Closed) => SessionEventView::Closed,
            SessionEvent::Written(delivered) => SessionEventView::Written(*delivered),
        }
    }
}

impl View for SessionAction {
    type V = SessionActionView;

    open spec fn view(&self) -> SessionActionView {
        match self {
            SessionAction::Write(frame) => SessionActionView::Write(frame@),
            SessionAction::Pause => SessionActionView::Pause,
            SessionAction::Exit => SessionActionView::Exit,
        }
    }
}

/// The client's rule: a pending message is framed at `width` bytes and
/// written; a closed channel or a failed write ends the session.
pub open spec fn session_next(state: SessionState, event: SessionEventView, width: nat) -> (
    SessionState,
    SessionActionView,
) {
    match state {
        SessionState::Ended => (SessionState::Ended, SessionActionView::Exit),
        SessionState::Open => match event {
            SessionEventView::Message(text) => (
                SessionState::Open,
                SessionActionView::Write(encoded(text, width)),
            ),
            SessionEventView::Empty => (SessionState::Open, SessionActionView::Pause),
            SessionEventView::Closed => (SessionState::Ended, SessionActionView::Exit),
            SessionEventView::Written(true) => (SessionState::Open, SessionActionView::Pause),
            SessionEventView::Written(false) => (SessionState::Ended, SessionActionView::Exit),
        },
    }
}

/// Takes the client's loop one event further.
pub fn session_step(state: SessionState, event: SessionEvent, width: usize) -> (result: (
    SessionState,
    SessionAction,
))
    ensures
        (result.0, result.1@) == session_next(state, event@, width as nat),
{
    match state {
        SessionState::Ended => (SessionState::Ended, SessionAction::Exit),
        SessionState::Open => match event {
            SessionEvent::Polled(OutboundPoll::Message(text)) => (
                SessionState::Open,
                SessionAction::Write(encode_to_width(text.as_str(), width)),
            ),
            SessionEvent::Polled(OutboundPoll::Empty) => (SessionState::Open, SessionAction::Pause),
            SessionEvent::Polled(OutboundPoll::Closed) => (SessionState::Ended, SessionAction::Exit),
            SessionEvent::Written(true) => (SessionState::Open, SessionAction::Pause),
            SessionEvent::Written(false) => (SessionState::Ended, SessionAction::Exit),
        },
    }
}

} // verus!
