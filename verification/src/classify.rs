//! Canonical classification of five-card hands.
//!
//! The shape index is a base-13 positional encoding of the ranks present,
//! folded in canonical scan order, offset into a distinct numeric range when
//! the hand is a flush. It depends only on the rank multiset and the
//! flush-ness, the strategic identity of a hand; it is the key into the
//! externally supplied class table.

use vstd::prelude::*;

use crate::hands::{card_count, count_scanned, has_card, lemma_count_scanned_mono, scan_pos};

verus! {

/// Cards found among the first `n` positions of the first suit lane.
pub open spec fn lane_count(cards: u64, n: nat) -> nat
    decreases n,
{
    if n == 0 {
        0
    } else {
        lane_count(cards, (n - 1) as nat) + if has_card(cards, (n - 1) as u64) {
            1nat
        } else {
            0nat
        }
    }
}

/// A five-card hand is a flush when all five cards sit in one suit lane;
/// canonical hands place that lane first.
pub open spec fn is_lane_flush(cards: u64) -> bool {
    lane_count(cards, 13) == 5
}

/// Base-13 fold over the canonical scan from step `i`, starting at `acc`:
/// each card folds its rank into the accumulator.
pub open spec fn class_fold(cards: u64, acc: int, i: nat) -> int
    decreases 52 - i,
{
    if i >= 52 {
        acc
    } else if has_card(cards, scan_pos(i as u64)) {
        class_fold(cards, acc * 13 + (i as int) / 4, i + 1)
    } else {
        class_fold(cards, acc, i + 1)
    }
}

/// The canonical shape index of a five-card hand.
pub open spec fn shape_index(cards: u64) -> int {
    class_fold(cards, if is_lane_flush(cards) { 1int } else { 0int }, 0)
}

/// Powers of 13, the growth of the fold per card seen.
pub open spec fn pow13(n: nat) -> int
    decreases n,
{
    if n == 0 {
        1int
    } else {
        13 * pow13((n - 1) as nat)
    }
}

/// No shape index of a five-card hand lies above this bound: the fold
/// multiplies by 13 once per card, so it stays below twice the fifth power
/// of 13.
pub const MAX_SHAPE_INDEX: usize = 742585;

proof fn lemma_pow13_le_five(n: nat)
    requires
        n <= 5,
    ensures
        1 <= pow13(n),
        pow13(n) <= 371293,
{
    assert(pow13(0) == 1);
    assert(pow13(1) == 13);
    assert(pow13(2) == 169);
    assert(pow13(3) == 2197);
    assert(pow13(4) == 28561);
    assert(pow13(5) == 371293);
}

/// Classifies a five-card hand: its canonical shape index.
pub fn classify(cards: u64) -> (r: usize)
    requires
        card_count(cards) == 5,
    ensures
        r == shape_index(cards),
        r <= MAX_SHAPE_INDEX,
{
    let mut lane: u64 = 0;
    for p in 0..13u64
        invariant
            lane == lane_count(cards, p as nat),
            lane <= p,
    {
        if cards & (1u64 << p) != 0 {
            lane = lane + 1;
        }
    }
    let mut acc: usize = if lane == 5 {
        1
    } else {
        0
    };
    let mut seen: u64 = 0;
    for i in 0..52u64
        invariant
            card_count(cards) == 5,
            class_fold(cards, acc as int, i as nat) == shape_index(cards),
            seen == count_scanned(cards, i as nat),
            acc + 1 <= 2 * pow13(seen as nat),
            seen <= 5,
    {
        let p = i / 4 + (i % 4) * 13;
        assert(p == scan_pos(i));
        if cards & (1u64 << p) != 0 {
            proof {
                lemma_count_scanned_mono(cards, (i + 1) as nat, 52);
                assert(seen + 1 <= 5);
                lemma_pow13_le_five((seen + 1) as nat);
                lemma_pow13_le_five(seen as nat);
                assert(acc * 13 + 13 <= 13 * (2 * pow13(seen as nat))) by (nonlinear_arith)
                    requires
                        acc + 1 <= 2 * pow13(seen as nat),
                ;
                assert(13 * (2 * pow13(seen as nat)) == 2 * pow13((seen + 1) as nat));
            }
            acc = acc * 13 + (i as usize) / 4;
            seen = seen + 1;
        }
    }
    proof {
        lemma_pow13_le_five(seen as nat);
    }
    acc
}

} // verus!
