//! Frequency tables: one counter per bin, in bin order.

use vstd::prelude::*;

verus! {

/// Sum of all entries of a frequency table.
pub open spec fn total(counts: Seq<u32>) -> int
    decreases counts.len(),
{
    if counts.len() == 0 {
        0
    } else {
        total(counts.drop_last()) + counts.last()
    }
}

/// A table of `bins` counters that are all zero.
pub open spec fn zeros(bins: nat) -> Seq<u32> {
    Seq::new(bins, |i: int| 0u32)
}

/// Whether every entry of a table is zero.
pub open spec fn all_zero(counts: Seq<u32>) -> bool {
    forall|i: int| 0 <= i < counts.len() ==> counts[i] == 0
}

/// A table without a positive entry sums to zero.
pub proof fn lemma_total_all_zero(counts: Seq<u32>)
    requires
        all_zero(counts),
    ensures
        total(counts) == 0,
    decreases counts.len(),
{
    if counts.len() > 0 {
        lemma_total_all_zero(counts.drop_last());
    }
}

/// No entry of a table is larger than the sum of all of them.
pub proof fn lemma_entry_within_total(counts: Seq<u32>, bin: int)
    requires
        0 <= bin < counts.len(),
    ensures
        0 <= counts[bin] <= total(counts),
    decreases counts.len(),
{
    lemma_total_nonnegative(counts.drop_last());
    if bin < counts.len() - 1 {
        lemma_entry_within_total(counts.drop_last(), bin);
    }
}

/// The sum of a table is never negative.
pub proof fn lemma_total_nonnegative(counts: Seq<u32>)
    ensures
        0 <= total(counts),
    decreases counts.len(),
{
    if counts.len() > 0 {
        lemma_total_nonnegative(counts.drop_last());
    }
}

/// Writing `value` over entry `bin` moves the sum by the difference.
pub proof fn lemma_total_update(counts: Seq<u32>, bin: int, value: u32)
    requires
        0 <= bin < counts.len(),
    ensures
        total(counts.update(bin, value)) == total(counts) - counts[bin] + value,
    decreases counts.len(),
{
    let after = counts.update(bin, value);
    if bin == counts.len() - 1 {
        assert(after.drop_last() =~= counts.drop_last());
    } else {
        assert(after.drop_last() =~= counts.drop_last().update(bin, value));
        lemma_total_update(counts.drop_last(), bin, value);
    }
}

/// The largest entry of a table, and zero for a table without entries.
pub open spec fn largest(counts: Seq<u32>) -> int
    decreases counts.len(),
{
    if counts.len() == 0 {
        0
    } else if counts.last() > largest(counts.drop_last()) {
        counts.last() as int
    } else {
        largest(counts.drop_last())
    }
}

/// No entry of a table exceeds its largest entry, and a table with entries
/// holds its largest entry somewhere.
pub proof fn lemma_largest(counts: Seq<u32>)
    ensures
        forall|i: int| 0 <= i < counts.len() ==> counts[i] <= largest(counts),
        counts.len() > 0 ==> exists|i: int| 0 <= i < counts.len() && counts[i] == largest(counts),
        counts.len() == 0 ==> largest(counts) == 0,
    decreases counts.len(),
{
    if counts.len() > 0 {
        let front = counts.drop_last();
        lemma_largest(front);
        assert forall|i: int| 0 <= i < counts.len() implies counts[i] <= largest(counts) by {
            if i < front.len() {
                assert(front[i] == counts[i]);
            }
        }
        if counts.last() > largest(front) || front.len() == 0 {
            assert(counts[counts.len() - 1] == largest(counts));
        } else {
            let i = choose|i: int| 0 <= i < front.len() && front[i] == largest(front);
            assert(counts[i] == largest(counts));
        }
    }
}

} // verus!
