//! What holds of every broadcast, whatever the roster and however the writes
//! go.

use vstd::prelude::*;
use crate::roster::{settled, BroadcastView};

verus! {

/// The entries of a roster whose write succeeded, in roster order. The flag at
/// a position of `delivered` tells how the write to the entry at that position
/// went.
pub open spec fn survivors<H>(entries: Seq<H>, delivered: Seq<bool>) -> Seq<H>
    recommends
        delivered.len() == entries.len(),
    decreases entries.len(),
{
    if entries.len() == 0 || delivered.len() == 0 {
        Seq::empty()
    } else if delivered.first() {
        seq![entries.first()] + survivors(entries.drop_first(), delivered.drop_first())
    } else {
        survivors(entries.drop_first(), delivered.drop_first())
    }
}

/// A broadcast after one write for each flag of `delivered`, in order.
pub open spec fn run<H>(pass: BroadcastView<H>, delivered: Seq<bool>) -> BroadcastView<H>
    decreases delivered.len(),
{
    if delivered.len() == 0 {
        pass
    } else {
        run(settled(pass, delivered.first()), delivered.drop_first())
    }
}

/// Writes go to the entries in roster order, one write each, and carry the same
/// frame: after any number of writes, however they went, the entries still
/// waiting are the roster without that many of its first entries.
pub proof fn theorem_fan_out<H>(pass: BroadcastView<H>, delivered: Seq<bool>)
    requires
        delivered.len() <= pass.waiting.len(),
    ensures
        run(pass, delivered).frame == pass.frame,
        run(pass, delivered).waiting == pass.waiting.skip(delivered.len() as int),
        delivered.len() < pass.waiting.len() ==> run(pass, delivered).waiting.first()
            == pass.waiting[delivered.len() as int],
    decreases delivered.len(),
{
    if delivered.len() == 0 {
        assert(pass.waiting.skip(0) =~= pass.waiting);
    } else {
        let after = settled(pass, delivered.first());
        theorem_fan_out(after, delivered.drop_first());
        assert(after.waiting.skip(delivered.len() - 1) =~= pass.waiting.skip(
            delivered.len() as int,
        ));
    }
}

/// After the write to the last entry, the roster is made of the entries whose
/// write succeeded, in their old order, behind those kept before.
pub proof fn theorem_pruning<H>(pass: BroadcastView<H>, delivered: Seq<bool>)
    requires
        delivered.len() == pass.waiting.len(),
    ensures
        run(pass, delivered).waiting.len() == 0,
        run(pass, delivered).kept == pass.kept + survivors(pass.waiting, delivered),
    decreases delivered.len(),
{
    if delivered.len() == 0 {
        assert(pass.kept + survivors(pass.waiting, delivered) =~= pass.kept);
    } else {
        let after = settled(pass, delivered.first());
        theorem_pruning(after, delivered.drop_first());
        assert(run(pass, delivered).kept =~= pass.kept + survivors(pass.waiting, delivered));
    }
}

/// Pruning goes entry by entry: what survives of two rosters joined is what
/// survives of the first, then what survives of the second.
pub proof fn theorem_survivors_concat<H>(
    front: Seq<H>,
    front_delivered: Seq<bool>,
    back: Seq<H>,
    back_delivered: Seq<bool>,
)
    requires
        front_delivered.len() == front.len(),
        back_delivered.len() == back.len(),
    ensures
        survivors(front + back, front_delivered + back_delivered) == survivors(
            front,
            front_delivered,
        ) + survivors(back, back_delivered),
    decreases front.len(),
{
    if front.len() == 0 {
        assert(front + back =~= back);
        assert(front_delivered + back_delivered =~= back_delivered);
        assert(survivors(front, front_delivered) + survivors(back, back_delivered) =~= survivors(
            back,
            back_delivered,
        ));
    } else {
        theorem_survivors_concat(
            front.drop_first(),
            front_delivered.drop_first(),
            back,
            back_delivered,
        );
        assert((front + back).drop_first() =~= front.drop_first() + back);
        assert((front_delivered + back_delivered).drop_first() =~= front_delivered.drop_first()
            + back_delivered);
        assert(survivors(front + back, front_delivered + back_delivered) =~= survivors(
            front,
            front_delivered,
        ) + survivors(back, back_delivered));
    }
}

/// Where every write succeeds, the roster stays as it is.
pub proof fn theorem_all_delivered<H>(entries: Seq<H>, delivered: Seq<bool>)
    requires
        delivered.len() == entries.len(),
        forall|i: int| 0 <= i < delivered.len() ==> delivered[i],
    ensures
        survivors(entries, delivered) == entries,
    decreases entries.len(),
{
    if entries.len() > 0 {
        theorem_all_delivered(entries.drop_first(), delivered.drop_first());
        assert(seq![entries.first()] + entries.drop_first() =~= entries);
    }
}

/// Where every write fails, the roster ends up empty.
pub proof fn theorem_none_delivered<H>(entries: Seq<H>, delivered: Seq<bool>)
    requires
        delivered.len() == entries.len(),
        forall|i: int| 0 <= i < delivered.len() ==> !delivered[i],
    ensures
        survivors(entries, delivered) == Seq::<H>::empty(),
    decreases entries.len(),
{
    if entries.len() > 0 {
        theorem_none_delivered(entries.drop_first(), delivered.drop_first());
    }
}

/// Where the write to one entry fails and all others succeed, that entry leaves
/// the roster and the others stay, in their order.
pub proof fn theorem_one_failure<H>(entries: Seq<H>, delivered: Seq<bool>, failed: int)
    requires
        delivered.len() == entries.len(),
        0 <= failed < entries.len(),
        forall|i: int| 0 <= i < delivered.len() ==> delivered[i] == (i != failed),
    ensures
        survivors(entries, delivered) == entries.remove(failed),
{
    let front = entries.take(failed);
    let back = entries.skip(failed + 1);
    let one = seq![entries[failed]];
    let front_delivered = delivered.take(failed);
    let back_delivered = delivered.skip(failed + 1);
    let one_delivered = seq![delivered[failed]];
    assert(entries =~= front + (one + back));
    assert(delivered =~= front_delivered + (one_delivered + back_delivered));
    theorem_survivors_concat(front, front_delivered, one + back, one_delivered + back_delivered);
    theorem_survivors_concat(one, one_delivered, back, back_delivered);
    theorem_all_delivered(front, front_delivered);
    theorem_all_delivered(back, back_delivered);
    theorem_none_delivered(one, one_delivered);
    assert(entries.remove(failed) =~= front + back);
}

} // verus!
