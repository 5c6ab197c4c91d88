//! The task that reads one connection.
//!
//! A receiver asks its connection for one whole frame at a time. A frame that
//! reads back as text is handed on; when no frame is there yet, the receiver
//! waits and asks again; a failed read or a frame that is not text ends the
//! receiver for good. The caller does the reading and reports how it went;
//! `step` says what follows.

use vstd::prelude::*;
use crate::frame::{decode, decoded, Frame};

pub mod laws;

verus! {

/// How an attempt to read one whole frame from a connection went.
#[derive(Debug, Clone, PartialEq, Eq)]
pub enum ReadOutcome {
    /// A whole frame was read.
    Complete(Frame),
    /// No whole frame is there yet.
    WouldBlock,
    /// The read failed in any other way: the peer closed or reset the
    /// connection, or the transport reported an error.
    Failed,
}

/// Why a receiver ended.
#[derive(Debug, Clone, Copy, PartialEq, Eq, Structural)]
pub enum StopCause {
    /// A read failed.
    ConnectionFailure,
    /// A frame held bytes that are not text.
    ProtocolViolation,
}

/// Where a receiver stands.
#[derive(Debug, Clone, Copy, PartialEq, Eq, Structural)]
pub enum ReceiverState {
    /// Reading frames.
    Connected,
    /// Ended, for the cause given. There is no way back.
    Terminated(StopCause),
}

/// What a receiver does after a read.
#[derive(Debug, Clone, PartialEq, Eq)]
pub enum ReceiverAction {
    /// Hand this text on, then pause for `POLL_INTERVAL_MS` and read again.
    Emit(String),
    /// Pause for `POLL_INTERVAL_MS` and read again.
    Retry,
    /// Report the end of the connection and read no more.
    Stop(StopCause),
}

/// A read outcome with the frame as its bytes.
pub enum ReadOutcomeView {
    Complete(Seq<u8>),
    WouldBlock,
    Failed,
}

/// An action with the text as its characters.
pub enum ReceiverActionView {
    Emit(Seq<char>),
    Retry,
    Stop(StopCause),
}

impl View for ReadOutcome {
    type V = ReadOutcomeView;

    open spec fn view(&self) -> ReadOutcomeView {
        match self {
            ReadOutcome::Complete(frame) => ReadOutcomeView::Complete(frame@),
            ReadOutcome::WouldBlock => ReadOutcomeView::WouldBlock,
            ReadOutcome::Failed => ReadOutcomeView::Failed,
        }
    }
}

impl View for ReceiverAction {
    type V = ReceiverActionView;

    open spec fn view(&self) -> ReceiverActionView {
        match self {
            ReceiverAction::Emit(text) => ReceiverActionView::Emit(text@),
            ReceiverAction::Retry => ReceiverActionView::Retry,
            ReceiverAction::Stop(cause) => ReceiverActionView::Stop(*cause),
        }
    }
}

/// The receiver's rule: the state after a read and the action it calls for.
pub open spec fn next(state: ReceiverState, outcome: ReadOutcomeView) -> (
    ReceiverState,
    ReceiverActionView,
) {
    match state {
        ReceiverState::Terminated(cause) => (state, ReceiverActionView::Stop(cause)),
        ReceiverState::Connected => match outcome {
            ReadOutcomeView::Complete(frame) => match decoded(frame) {
                Ok(text) => (ReceiverState::Connected, ReceiverActionView::Emit(text)),
                Err(_) => (
                    ReceiverState::Terminated(StopCause::ProtocolViolation),
                    ReceiverActionView::Stop(StopCause::ProtocolViolation),
                ),
            },
            ReadOutcomeView::WouldBlock => (ReceiverState::Connected, ReceiverActionView::Retry),
            ReadOutcomeView::Failed => (
                ReceiverState::Terminated(StopCause::ConnectionFailure),
                ReceiverActionView::Stop(StopCause::ConnectionFailure),
            ),
        },
    }
}

/// Takes a receiver one read further.
pub fn step(state: ReceiverState, outcome: ReadOutcome) -> (result: (ReceiverState, ReceiverAction))
    ensures
        (result.0, result.1@) == next(state, outcome@),
{
    match state {
        ReceiverState::Terminated(cause) => (state, ReceiverAction::Stop(cause)),
        ReceiverState::Connected => match outcome {
            ReadOutcome::Complete(frame) => match decode(&frame) {
                Ok(text) => (ReceiverState::Connected, ReceiverAction::Emit(text)),
                Err(_) => (
                    ReceiverState::Terminated(StopCause::ProtocolViolation),
                    ReceiverAction::Stop(StopCause::ProtocolViolation),
                ),
            },
            ReadOutcome::WouldBlock => (ReceiverState::Connected, ReceiverAction::Retry),
            ReadOutcome::Failed => (
                ReceiverState::Terminated(StopCause::ConnectionFailure),
                ReceiverAction::Stop(StopCause::ConnectionFailure),
            ),
        },
    }
}

} // verus!
