//! Constant-time strength ranking for seven-card poker hands.
//!
//! A hand is a 64-bit mask over a 52-card universe laid out as four
//! contiguous 13-bit suit lanes. The crate classifies five-card hands into
//! canonical shape indices, derives six- and seven-card strength tables from
//! a five-card class table by minimising over single-card removals, and
//! answers lookups against the finished table in O(1). The combinatorial
//! rank/unrank bijection between table slots and hands is an external
//! collaborator; this crate works on the plain hands and ranks exchanged
//! with it.

use vstd::prelude::*;

pub mod hands;
pub mod classify;
pub mod tables;
pub mod laws;
pub mod codec;
pub mod eval;

verus! {

/// Sentinel strength: worse than every real hand class, used before any
/// candidate has been folded into a table entry.
pub const WORST_STRENGTH: u16 = 7462;

/// Number of canonical five-card hands, the length of the level-5 table.
pub const TABLE_5_SIZE: usize = 134459;

/// Number of canonical six-card hands, the length of the level-6 table.
pub const TABLE_6_SIZE: usize = 962988;

/// Number of canonical seven-card hands, the length of the level-7 table.
pub const TABLE_7_SIZE: usize = 6009159;

} // verus!
