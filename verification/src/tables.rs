//! Strength tables and their builders.
//!
//! The level-5 table records, for each five-card hand of the table's domain,
//! the class-table strength of its canonical shape. The higher tables are
//! derived by minimisation: the entry of a hand is the least strength of the
//! tables one level down over all its single-card removals, starting from the
//! sentinel. Each entry is a pure function of the inputs, so regeneration
//! from the same inputs reproduces the same table, entry for entry.

use vstd::prelude::*;

use crate::WORST_STRENGTH;
use crate::classify::{classify, shape_index};
use crate::hands::{card_count, count_cards};

verus! {

/// Why table construction or lookup was refused.
#[derive(Clone, Copy, Debug, PartialEq, Eq, Structural)]
pub enum TableError {
    /// A hand did not hold the expected number of cards.
    WrongCardCount,
    /// A shape index fell outside the class table.
    ShapeOutOfRange,
    /// A combinatorial rank fell outside the table it indexes.
    RankOutOfRange,
    /// A persisted table had an odd number of bytes.
    OddByteLength,
}

/// The least strength among `table[ranks[0..n]]`, folded from the sentinel.
pub open spec fn min_fold(table: Seq<u16>, ranks: Seq<u64>, n: nat) -> u16
    decreases n,
{
    if n == 0 {
        WORST_STRENGTH
    } else {
        let rest = min_fold(table, ranks, (n - 1) as nat);
        let v = table[ranks[n - 1] as int];
        if v < rest {
            v
        } else {
            rest
        }
    }
}

/// The fold never rises above the sentinel.
pub proof fn lemma_min_fold_le_worst(table: Seq<u16>, ranks: Seq<u64>, n: nat)
    ensures
        min_fold(table, ranks, n) <= WORST_STRENGTH,
    decreases n,
{
    if n > 0 {
        lemma_min_fold_le_worst(table, ranks, (n - 1) as nat);
    }
}

/// The fold lies at or below every candidate it covers.
pub proof fn lemma_min_fold_le(table: Seq<u16>, ranks: Seq<u64>, n: nat, i: int)
    requires
        0 <= i < n,
    ensures
        min_fold(table, ranks, n) <= table[ranks[i] as int],
    decreases n,
{
    if i < n - 1 {
        lemma_min_fold_le(table, ranks, (n - 1) as nat, i);
    }
}

/// The fold is the sentinel or one of the candidates it covers.
pub proof fn lemma_min_fold_reached(table: Seq<u16>, ranks: Seq<u64>, n: nat)
    ensures
        min_fold(table, ranks, n) == WORST_STRENGTH || exists|i: int|
            0 <= i < n && min_fold(table, ranks, n) == table[#[trigger] ranks[i] as int],
    decreases n,
{
    if n > 0 {
        lemma_min_fold_reached(table, ranks, (n - 1) as nat);
    }
}

/// The least strength reachable through the given ranks, or the rank that
/// broke the table's bounds.
pub fn min_over(table: &Vec<u16>, ranks: &Vec<u64>) -> (r: Result<u16, TableError>)
    ensures
        (r is Ok) <==> (forall|i: int|
            0 <= i < ranks@.len() ==> (#[trigger] ranks@[i]) < table@.len()),
        r matches Ok(v) ==> v == min_fold(table@, ranks@, ranks@.len()),
        r is Err ==> r == Err::<u16, TableError>(TableError::RankOutOfRange),
{
    let mut best: u16 = WORST_STRENGTH;
    let n = ranks.len();
    for j in 0..n
        invariant
            n == ranks@.len(),
            best == min_fold(table@, ranks@, j as nat),
            forall|i: int| 0 <= i < j ==> (#[trigger] ranks@[i]) < table@.len(),
    {
        let rank = ranks[j];
        if rank >= table.len() as u64 {
            return Err(TableError::RankOutOfRange);
        }
        let v = table[rank as usize];
        if v < best {
            best = v;
        }
    }
    Ok(best)
}

/// The earliest reason the level-5 build of `hands[0..n]` fails, if any:
/// a hand without five cards, or a shape the class table does not cover.
pub open spec fn level5_flaw(classes: Seq<u16>, hands: Seq<u64>, n: nat) -> Option<TableError>
    decreases n,
{
    if n == 0 {
        None
    } else if level5_flaw(classes, hands, (n - 1) as nat) is Some {
        level5_flaw(classes, hands, (n - 1) as nat)
    } else if card_count(hands[n - 1]) != 5 {
        Some(TableError::WrongCardCount)
    } else if shape_index(hands[n - 1]) >= classes.len() {
        Some(TableError::ShapeOutOfRange)
    } else {
        None
    }
}

/// A flaw found at one hand persists to every longer prefix.
proof fn lemma_level5_flaw_found(classes: Seq<u16>, hands: Seq<u64>, i: nat, n: nat)
    requires
        i < n,
        level5_flaw(classes, hands, (i + 1) as nat) is Some,
    ensures
        level5_flaw(classes, hands, n) == level5_flaw(classes, hands, (i + 1) as nat),
    decreases n,
{
    if n - 1 > i {
        lemma_level5_flaw_found(classes, hands, i, (n - 1) as nat);
    }
}

/// Builds the level-5 table over the given five-card hands: entry `i` is the
/// class-table strength of the canonical shape of `hands[i]`. A hand without
/// five cards or a shape outside the class table aborts the build with the
/// earliest such flaw.
pub fn build_level_5(classes: &Vec<u16>, hands: &Vec<u64>) -> (r: Result<Vec<u16>, TableError>)
    ensures
        (r is Ok) <==> level5_flaw(classes@, hands@, hands@.len()) is None,
        r matches Ok(t) ==> {
            &&& t@.len() == hands@.len()
            &&& forall|i: int|
                0 <= i < hands@.len() ==> t@[i] == classes@[shape_index(#[trigger] hands@[i])]
        },
        r matches Err(e) ==> Some(e) == level5_flaw(classes@, hands@, hands@.len()),
{
    let mut table: Vec<u16> = Vec::new();
    let n = hands.len();
    for i in 0..n
        invariant
            n == hands@.len(),
            table@.len() == i,
            level5_flaw(classes@, hands@, i as nat) is None,
            forall|j: int|
                0 <= j < i ==> table@[j] == classes@[shape_index(#[trigger] hands@[j])],
    {
        let hand = hands[i];
        if count_cards(hand) != 5 {
            proof {
                lemma_level5_flaw_found(classes@, hands@, i as nat, hands@.len());
            }
            return Err(TableError::WrongCardCount);
        }
        let shape = classify(hand);
        if shape >= classes.len() {
            proof {
                lemma_level5_flaw_found(classes@, hands@, i as nat, hands@.len());
            }
            return Err(TableError::ShapeOutOfRange);
        }
        table.push(classes[shape]);
    }
    Ok(table)
}

/// Builds a derived table: entry `i` is the least strength of the table one
/// level down over the ranks in `rank_rows[i]`, the sub-hand ranks of the
/// hand at slot `i`. A rank outside the lower table aborts the build.
pub fn build_min_table(table_sub: &Vec<u16>, rank_rows: &Vec<Vec<u64>>) -> (r: Result<
    Vec<u16>,
    TableError,
>)
    ensures
        (r is Ok) <==> (forall|i: int, j: int|
            0 <= i < rank_rows@.len() && 0 <= j < rank_rows@[i]@.len()
                ==> (#[trigger] rank_rows@[i]@[j]) < table_sub@.len()),
        r matches Ok(t) ==> {
            &&& t@.len() == rank_rows@.len()
            &&& forall|i: int|
                0 <= i < rank_rows@.len() ==> t@[i] == min_fold(
                    table_sub@,
                    (#[trigger] rank_rows@[i])@,
                    rank_rows@[i]@.len(),
                )
        },
        r is Err ==> r == Err::<Vec<u16>, TableError>(TableError::RankOutOfRange),
{
    let mut table: Vec<u16> = Vec::new();
    let n = rank_rows.len();
    for i in 0..n
        invariant
            n == rank_rows@.len(),
            table@.len() == i,
            forall|a: int, j: int|
                0 <= a < i && 0 <= j < rank_rows@[a]@.len()
                    ==> (#[trigger] rank_rows@[a]@[j]) < table_sub@.len(),
            forall|a: int|
                0 <= a < i ==> table@[a] == min_fold(
                    table_sub@,
                    (#[trigger] rank_rows@[a])@,
                    rank_rows@[a]@.len(),
                ),
    {
        let row = &rank_rows[i];
        match min_over(table_sub, row) {
            Ok(v) => {
                table.push(v);
            },
            Err(e) => {
                return Err(e);
            },
        }
    }
    Ok(table)
}

/// Generate mode: derives the three tables in order. Entry `i` of the first
/// table is the class strength of `hands_5[i]`; each higher table minimises
/// the one below it over its rank rows, which list the sub-hand ranks of the
/// hand at each slot. The first flaw aborts the whole generation: no partial
/// set of tables is returned.
pub fn generate_tables(
    classes: &Vec<u16>,
    hands_5: &Vec<u64>,
    rank_rows_6: &Vec<Vec<u64>>,
    rank_rows_7: &Vec<Vec<u64>>,
) -> (r: Result<(Vec<u16>, Vec<u16>, Vec<u16>), TableError>)
    ensures
        (r is Ok) <==> {
            &&& level5_flaw(classes@, hands_5@, hands_5@.len()) is None
            &&& forall|i: int, j: int|
                0 <= i < rank_rows_6@.len() && 0 <= j < rank_rows_6@[i]@.len()
                    ==> (#[trigger] rank_rows_6@[i]@[j]) < hands_5@.len()
            &&& forall|i: int, j: int|
                0 <= i < rank_rows_7@.len() && 0 <= j < rank_rows_7@[i]@.len()
                    ==> (#[trigger] rank_rows_7@[i]@[j]) < rank_rows_6@.len()
        },
        r matches Ok(t) ==> {
            &&& t.0@.len() == hands_5@.len()
            &&& forall|i: int|
                0 <= i < hands_5@.len() ==> t.0@[i] == classes@[shape_index(#[trigger] hands_5@[i])]
            &&& t.1@.len() == rank_rows_6@.len()
            &&& forall|i: int|
                0 <= i < rank_rows_6@.len() ==> t.1@[i] == min_fold(
                    t.0@,
                    (#[trigger] rank_rows_6@[i])@,
                    rank_rows_6@[i]@.len(),
                )
            &&& t.2@.len() == rank_rows_7@.len()
            &&& forall|i: int|
                0 <= i < rank_rows_7@.len() ==> t.2@[i] == min_fold(
                    t.1@,
                    (#[trigger] rank_rows_7@[i])@,
                    rank_rows_7@[i]@.len(),
                )
        },
        r matches Err(e) ==> (if level5_flaw(classes@, hands_5@, hands_5@.len()) is Some {
            Some(e) == level5_flaw(classes@, hands_5@, hands_5@.len())
        } else {
            e == TableError::RankOutOfRange
        }),
{
    let table_5 = match build_level_5(classes, hands_5) {
        Ok(t) => t,
        Err(e) => {
            return Err(e);
        },
    };
    let table_6 = match build_min_table(&table_5, rank_rows_6) {
        Ok(t) => t,
        Err(e) => {
            return Err(e);
        },
    };
    let table_7 = match build_min_table(&table_6, rank_rows_7) {
        Ok(t) => t,
        Err(e) => {
            return Err(e);
        },
    };
    Ok((table_5, table_6, table_7))
}

} // verus!
