//! What holds of a receiver over a whole run of reads.

use vstd::prelude::*;
use crate::frame::{decoded, DecodeError};
use crate::receiver::{next, ReadOutcomeView, ReceiverActionView, ReceiverState, StopCause};

verus! {

/// The state of a receiver after the reads of `outcomes`, in order.
pub open spec fn run(state: ReceiverState, outcomes: Seq<ReadOutcomeView>) -> ReceiverState
    decreases outcomes.len(),
{
    if outcomes.len() == 0 {
        state
    } else {
        run(next(state, outcomes.first()).0, outcomes.drop_first())
    }
}

/// The texts that a receiver hands on in the course of the reads of
/// `outcomes`, in order.
pub open spec fn emitted(state: ReceiverState, outcomes: Seq<ReadOutcomeView>) -> Seq<Seq<char>>
    decreases outcomes.len(),
{
    if outcomes.len() == 0 {
        Seq::empty()
    } else {
        let (after, action) = next(state, outcomes.first());
        let later = emitted(after, outcomes.drop_first());
        match action {
            ReceiverActionView::Emit(text) => seq![text] + later,
            _ => later,
        }
    }
}

/// A receiver that has ended stays ended, for the same cause, and hands on
/// nothing more, whatever is read afterwards.
pub proof fn theorem_terminated_is_final(cause: StopCause, outcomes: Seq<ReadOutcomeView>)
    ensures
        run(ReceiverState::Terminated(cause), outcomes) == ReceiverState::Terminated(cause),
        emitted(ReceiverState::Terminated(cause), outcomes) == Seq::<Seq<char>>::empty(),
    decreases outcomes.len(),
{
    if outcomes.len() > 0 {
        theorem_terminated_is_final(cause, outcomes.drop_first());
    }
}

/// While no read fails and every frame is text, a receiver stays connected and
/// hands on the text of each frame it reads, in the order of the reads.
pub proof fn theorem_emits_in_order(outcomes: Seq<ReadOutcomeView>)
    requires
        forall|i: int|
            0 <= i < outcomes.len() ==> (#[trigger] outcomes[i] matches ReadOutcomeView::Complete(
                frame,
            ) && decoded(frame) is Ok),
    ensures
        run(ReceiverState::Connected, outcomes) == ReceiverState::Connected,
        emitted(ReceiverState::Connected, outcomes).len() == outcomes.len(),
        forall|i: int|
            0 <= i < outcomes.len() ==> Ok::<Seq<char>, DecodeError>(
                #[trigger] emitted(ReceiverState::Connected, outcomes)[i],
            ) == decoded(outcomes[i]->Complete_0),
    decreases outcomes.len(),
{
    if outcomes.len() > 0 {
        let later = outcomes.drop_first();
        assert forall|i: int| 0 <= i < later.len() implies (#[trigger] later[i] matches ReadOutcomeView::Complete(
            frame,
        ) && decoded(frame) is Ok) by {
            assert(later[i] == outcomes[i + 1]);
        }
        theorem_emits_in_order(later);
        let all = emitted(ReceiverState::Connected, outcomes);
        assert(outcomes.first() == outcomes[0]);
        assert forall|i: int| 0 <= i < outcomes.len() implies Ok::<Seq<char>, DecodeError>(
            #[trigger] all[i],
        ) == decoded(outcomes[i]->Complete_0) by {
            if i > 0 {
                assert(all[i] == emitted(ReceiverState::Connected, later)[i - 1]);
                assert(later[i - 1] == outcomes[i]);
            }
        }
    }
}

} // verus!
