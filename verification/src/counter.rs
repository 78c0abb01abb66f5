//! Wrapping counters that number changes and generations.

use vstd::prelude::*;

verus! {

/// A counter after one more count; it wraps at its end.
pub open spec fn next_seq(seq: u64) -> u64 {
    if seq == u64::MAX {
        0
    } else {
        (seq + 1) as u64
    }
}

/// A counter after a number of counts.
pub open spec fn seq_after(seq: u64, counts: nat) -> u64
    decreases counts,
{
    if counts == 0 {
        seq
    } else {
        next_seq(seq_after(seq, (counts - 1) as nat))
    }
}

/// Counts once more.
pub fn advance(seq: u64) -> (next: u64)
    ensures
        next == next_seq(seq),
{
    seq.wrapping_add(1)
}

proof fn lemma_seq_after(seq: u64, counts: nat)
    ensures
        seq_after(seq, counts) == (seq + counts) % 0x1_0000_0000_0000_0000,
    decreases counts,
{
    if counts > 0 {
        lemma_seq_after(seq, (counts - 1) as nat);
    }
}

/// A counter that has moved on does not come back to an earlier value, short of a full turn.
pub proof fn earlier_values_stay_past(seq: u64, counts: nat)
    requires
        0 < counts < 0x1_0000_0000_0000_0000,
    ensures
        seq_after(seq, counts) != seq,
{
    lemma_seq_after(seq, counts);
}

/// Each count adds one, up to the full turn of 64 bits.
pub proof fn counts_add_up(seq: u64, counts: nat)
    ensures
        seq_after(seq, counts) == (seq + counts) % 0x1_0000_0000_0000_0000,
        next_seq(seq) == (seq + 1) % 0x1_0000_0000_0000_0000,
        next_seq(seq) != seq,
{
    lemma_seq_after(seq, counts);
}

} // verus!
