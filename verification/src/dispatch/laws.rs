//! What holds of the loops together with the receivers at the other end of the
//! connections they write to.

use vstd::prelude::*;
use vstd::utf8::*;
use crate::dispatch::{
    joined, server_plan, session_next, CycleView, SessionActionView, SessionEventView,
    SessionState,
};
use crate::frame::{before_first, truncated};
use crate::frame::laws::{theorem_decode_encoded, theorem_round_trip};
use crate::receiver::{next, ReadOutcomeView, ReceiverActionView, ReceiverState};

verus! {

/// A cycle without a pending message leaves the roster as it is, but for the
/// connection it took in, and the loop goes on: there is no state in which the
/// server stops taking in connections or messages.
pub proof fn theorem_idle_cycle<H>(roster: Seq<H>, accepted: Option<H>, width: nat)
    ensures
        server_plan(roster, accepted, None, width) == CycleView::Idle(joined(roster, accepted)),
        server_plan(roster, None, None, width) == CycleView::<H>::Idle(roster),
{
}

/// A message that the server takes in is written to every entry of the roster,
/// to the connection of the same cycle too, and a receiver that reads what was
/// written hands on the message: all of it where it has no NUL character and
/// its encoding is no wider than the frame, and else what the frame carries of
/// it, up to the first NUL.
pub proof fn theorem_relay<H>(roster: Seq<H>, accepted: Option<H>, text: Seq<char>, width: nat)
    ensures
        server_plan(roster, accepted, Some(text), width) matches CycleView::Relay(pass) && {
            &&& pass.waiting == joined(roster, accepted)
            &&& pass.kept.len() == 0
            &&& next(ReceiverState::Connected, ReadOutcomeView::Complete(pass.frame)) == (
                ReceiverState::Connected,
                ReceiverActionView::Emit(before_first(truncated(text, width), '\0')),
            )
            &&& encode_utf8(text).len() <= width && !text.contains('\0') ==> next(
                ReceiverState::Connected,
                ReadOutcomeView::Complete(pass.frame),
            ) == (ReceiverState::Connected, ReceiverActionView::Emit(text))
        },
{
    theorem_decode_encoded(text, width);
    if encode_utf8(text).len() <= width && !text.contains('\0') {
        theorem_round_trip(text, width);
    }
}

/// A message that the client's loop takes from its channel reaches the
/// receiver at the server's end in the same way.
pub proof fn theorem_submission(text: Seq<char>, width: nat)
    ensures
        session_next(SessionState::Open, SessionEventView::Message(text), width)
            matches (SessionState::Open, SessionActionView::Write(frame)) && {
            &&& next(ReceiverState::Connected, ReadOutcomeView::Complete(frame)) == (
                ReceiverState::Connected,
                ReceiverActionView::Emit(before_first(truncated(text, width), '\0')),
            )
            &&& encode_utf8(text).len() <= width && !text.contains('\0') ==> next(
                ReceiverState::Connected,
                ReadOutcomeView::Complete(frame),
            ) == (ReceiverState::Connected, ReceiverActionView::Emit(text))
        },
{
    theorem_decode_encoded(text, width);
    if encode_utf8(text).len() <= width && !text.contains('\0') {
        theorem_round_trip(text, width);
    }
}

/// A session that has ended stays ended and writes nothing more.
pub proof fn theorem_ended_is_final(event: SessionEventView, width: nat)
    ensures
        session_next(SessionState::Ended, event, width) == (
            SessionState::Ended,
            SessionActionView::Exit,
        ),
{
}

} // verus!
