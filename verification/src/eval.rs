//! The evaluator: the finished level-7 table behind an O(1) lookup.
//!
//! A caller ranks a seven-card hand through the combinatorial indexer and
//! asks for the strength stored at that rank. A malformed hand must be
//! rejected before ranking, and a rank outside the table is answered with
//! nothing rather than an unrelated strength.

use vstd::prelude::*;

use crate::TABLE_7_SIZE;
use crate::hands::{count_cards, valid_hand};

verus! {

/// Owns a strength table indexed by combinatorial rank; immutable once built.
pub struct Evaluator {
    entries: Vec<u16>,
}

impl Evaluator {
    /// The strengths the evaluator answers from, by rank.
    pub closed spec fn strengths(&self) -> Seq<u16> {
        self.entries@
    }

    /// Wraps a generated or decoded table.
    pub fn from_entries(entries: Vec<u16>) -> (e: Self)
        ensures
            e.strengths() == entries@,
    {
        Evaluator { entries }
    }

    /// Number of ranks the table covers.
    pub fn len(&self) -> (n: usize)
        ensures
            n == self.strengths().len(),
    {
        self.entries.len()
    }

    /// True when the table covers every seven-card rank.
    pub fn is_complete(&self) -> (b: bool)
        ensures
            b == (self.strengths().len() == TABLE_7_SIZE),
    {
        self.entries.len() == TABLE_7_SIZE
    }

    /// The strength stored for a seven-card rank, or nothing when the rank
    /// lies outside the table.
    pub fn strength_at(&self, rank: u64) -> (r: Option<u16>)
        ensures
            (r is Some) <==> rank < self.strengths().len(),
            r matches Some(v) ==> v == self.strengths()[rank as int],
    {
        if rank < self.entries.len() as u64 {
            Some(self.entries[rank as usize])
        } else {
            None
        }
    }
}

/// The seven-card precondition: exactly seven cards, none outside the
/// 52-card universe. Evaluation must refuse a hand that fails this rather
/// than return a strength.
pub fn check_seven_cards(cards: u64) -> (b: bool)
    ensures
        b == valid_hand(cards, 7),
{
    cards >> 52 == 0 && count_cards(cards) == 7
}

} // verus!
