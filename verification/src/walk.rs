//! One ball's way down the board. A ball starts in bin zero and moves one bin
//! to the right at every peg that deflects it to the right, so it lands in
//! the bin whose number is its count of right turns.

use vstd::prelude::*;

verus! {

/// Number of right turns in a sequence of deflections, where `true` is a turn
/// to the right.
pub open spec fn rights(flips: Seq<bool>) -> nat
    decreases flips.len(),
{
    if flips.len() == 0 {
        0
    } else if flips.last() {
        rights(flips.drop_last()) + 1
    } else {
        rights(flips.drop_last())
    }
}

/// One more deflection adds one right turn if it goes to the right, and none
/// otherwise.
pub proof fn lemma_rights_push(flips: Seq<bool>, right: bool)
    ensures
        rights(flips.push(right)) == rights(flips) + if right { 1nat } else { 0nat },
{
    assert(flips.push(right).drop_last() =~= flips);
}

/// There are at most as many right turns as deflections.
pub proof fn lemma_rights_bounded(flips: Seq<bool>)
    ensures
        rights(flips) <= flips.len(),
    decreases flips.len(),
{
    if flips.len() > 0 {
        lemma_rights_bounded(flips.drop_last());
    }
}

/// The bin a ball is in after one more peg: one further to the right when the
/// peg deflects it to the right, the same bin otherwise.
pub fn deflect(bin: usize, right: bool) -> (next: usize)
    requires
        bin < usize::MAX,
    ensures
        next == bin + if right { 1int } else { 0int },
{
    if right {
        bin + 1
    } else {
        bin
    }
}

} // verus!
