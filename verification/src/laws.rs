//! The dynamic-programming reduction, stated over hands alone.
//!
//! Deriving a level by minimising over single-card removals, twice in a row,
//! reaches exactly the minima over all two-card removals: for a seven-card
//! hand, the 7 + 6 lookups of the two derived levels agree with the direct
//! minimum over all C(7,5) = 21 five-card subsets. The statements here hold
//! for every valuation of the lower level and every hand, so they cover the
//! generated tables whatever strengths the class table assigns.

use vstd::prelude::*;

use crate::WORST_STRENGTH;
use crate::hands::{has_card, lemma_removals_prefix, remove_card, removals, removals_upto};
use crate::tables::min_fold;

verus! {

/// The least value of `v` over the single-card removals of `cards` at
/// positions below `n`, folded from `worst`.
pub open spec fn removal_min(cards: u64, v: spec_fn(u64) -> int, worst: int, n: nat) -> int
    decreases n,
{
    if n == 0 {
        worst
    } else {
        let rest = removal_min(cards, v, worst, (n - 1) as nat);
        if has_card(cards, (n - 1) as u64) {
            let x = v(remove_card(cards, (n - 1) as u64));
            if x < rest {
                x
            } else {
                rest
            }
        } else {
            rest
        }
    }
}

/// One derivation step applied twice: the removal minimum whose valuation is
/// itself a removal minimum one level down.
pub open spec fn two_level_min(cards: u64, v: spec_fn(u64) -> int, worst: int) -> int {
    removal_min(cards, |sub: u64| removal_min(sub, v, worst, 52), worst, 52)
}

/// Removing a card preserves or improves the removal minimum's bound: the
/// minimum lies at or below the value of every single-card removal.
pub proof fn lemma_removal_min_le(cards: u64, v: spec_fn(u64) -> int, worst: int, n: nat, p: u64)
    requires
        p < n,
        has_card(cards, p),
    ensures
        removal_min(cards, v, worst, n) <= v(remove_card(cards, p)),
    decreases n,
{
    if (p as int) < n - 1 {
        lemma_removal_min_le(cards, v, worst, (n - 1) as nat, p);
    }
}

/// The removal minimum never rises above the fold's start.
pub proof fn lemma_removal_min_le_worst(cards: u64, v: spec_fn(u64) -> int, worst: int, n: nat)
    ensures
        removal_min(cards, v, worst, n) <= worst,
    decreases n,
{
    if n > 0 {
        lemma_removal_min_le_worst(cards, v, worst, (n - 1) as nat);
    }
}

/// The removal minimum is the fold's start or the value of one removal.
pub proof fn lemma_removal_min_reached(cards: u64, v: spec_fn(u64) -> int, worst: int, n: nat)
    ensures
        removal_min(cards, v, worst, n) == worst || exists|p: u64|
            p < n && #[trigger] has_card(cards, p) && removal_min(cards, v, worst, n) == v(
                remove_card(cards, p),
            ),
    decreases n,
{
    if n > 0 {
        lemma_removal_min_reached(cards, v, worst, (n - 1) as nat);
    }
}

proof fn lemma_min_fold_removal_upto(
    table: Seq<u16>,
    ranks: Seq<u64>,
    cards: u64,
    v: spec_fn(u64) -> int,
    n: nat,
)
    requires
        n <= 52,
        forall|j: int|
            0 <= j < removals_upto(cards, n).len() ==> table[(#[trigger] ranks[j]) as int] == v(
                removals_upto(cards, n)[j],
            ),
    ensures
        min_fold(table, ranks, removals_upto(cards, n).len()) == removal_min(
            cards,
            v,
            WORST_STRENGTH as int,
            n,
        ),
    decreases n,
{
    if n > 0 {
        let m = (n - 1) as nat;
        assert forall|j: int|
            0 <= j < removals_upto(cards, m).len() implies table[(#[trigger] ranks[j]) as int]
            == v(removals_upto(cards, m)[j]) by {
            lemma_removals_prefix(cards, m, n, j);
        }
        lemma_min_fold_removal_upto(table, ranks, cards, v, m);
    }
}

/// The executable fold over a row of ranks agrees with the abstract removal
/// minimum: when the row holds one rank per single-card removal, in order,
/// and the lower table answers each rank with the valuation of its hand,
/// the derived entry is exactly the least valuation over the removals.
pub proof fn lemma_min_fold_is_removal_min(
    table: Seq<u16>,
    ranks: Seq<u64>,
    cards: u64,
    v: spec_fn(u64) -> int,
)
    requires
        ranks.len() == removals(cards).len(),
        forall|j: int|
            0 <= j < ranks.len() ==> table[(#[trigger] ranks[j]) as int] == v(removals(cards)[j]),
    ensures
        min_fold(table, ranks, ranks.len()) == removal_min(cards, v, WORST_STRENGTH as int, 52),
{
    lemma_min_fold_removal_upto(table, ranks, cards, v, 52);
}

/// Monotonicity: removing a card can only improve or preserve the best
/// reachable strength. The two-level value of a hand lies at or below the
/// removal minimum of each of its single-card removals -- and it is the
/// least of them by definition, so the derived tables never contradict the
/// level below.
pub proof fn lemma_removal_improves(cards: u64, v: spec_fn(u64) -> int, worst: int, p: u64)
    requires
        p < 52,
        has_card(cards, p),
    ensures
        two_level_min(cards, v, worst) <= removal_min(remove_card(cards, p), v, worst, 52),
{
    lemma_removal_min_le(cards, |sub: u64| removal_min(sub, v, worst, 52), worst, 52, p);
}

/// The top-level derivation is correct against brute force: when every rank
/// of the row answers with the removal minimum of its six-card hand one
/// level down, the derived entry equals the two-level minimum of the
/// seven-card hand -- the least valuation over all C(7,5) = 21 five-card
/// subsets. It lies at or below the valuation of every two-card removal and
/// is the sentinel or one of them, so minimising once per level loses
/// nothing against enumerating the subsets directly.
pub proof fn lemma_derived_entry_is_best_subset(
    table6: Seq<u16>,
    ranks: Seq<u64>,
    cards: u64,
    v5: spec_fn(u64) -> int,
)
    requires
        ranks.len() == removals(cards).len(),
        forall|j: int|
            0 <= j < ranks.len() ==> table6[(#[trigger] ranks[j]) as int] == removal_min(
                removals(cards)[j],
                v5,
                WORST_STRENGTH as int,
                52,
            ),
    ensures
        min_fold(table6, ranks, ranks.len()) == two_level_min(cards, v5, WORST_STRENGTH as int),
        forall|p: u64, q: u64|
            p < 52 && q < 52 && p != q && has_card(cards, p) && has_card(cards, q)
                ==> min_fold(table6, ranks, ranks.len()) <= v5(
                #[trigger] remove_card(remove_card(cards, p), q),
            ),
        min_fold(table6, ranks, ranks.len()) == WORST_STRENGTH || exists|p: u64, q: u64|
            p < 52 && q < 52 && p != q && has_card(cards, p) && has_card(cards, q) && min_fold(
                table6,
                ranks,
                ranks.len(),
            ) == v5(#[trigger] remove_card(remove_card(cards, p), q)),
{
    let v6 = |sub: u64| removal_min(sub, v5, WORST_STRENGTH as int, 52);
    lemma_min_fold_is_removal_min(table6, ranks, cards, v6);
    assert forall|p: u64, q: u64|
        p < 52 && q < 52 && p != q && has_card(cards, p) && has_card(
            cards,
            q,
        ) implies min_fold(table6, ranks, ranks.len()) <= v5(
        #[trigger] remove_card(remove_card(cards, p), q),
    ) by {
        lemma_two_level_min_le(cards, v5, WORST_STRENGTH as int, p, q);
    }
    lemma_two_level_min_reached(cards, v5, WORST_STRENGTH as int);
}

/// Card membership and removal after one removal, position for position.
proof fn lemma_remove_card_bits(cards: u64, p: u64, q: u64)
    requires
        p < 52,
        q < 52,
    ensures
        has_card(remove_card(cards, p), q) <==> (q != p && has_card(cards, q)),
        remove_card(remove_card(cards, p), q) == remove_card(remove_card(cards, q), p),
{
    assert((cards & !(1u64 << p)) & (1u64 << q) != 0 <==> (q != p && cards & (1u64 << q) != 0))
        by (bit_vector)
        requires
            p < 52 && q < 52,
    ;
    assert((cards & !(1u64 << p)) & !(1u64 << q) == (cards & !(1u64 << q)) & !(1u64 << p))
        by (bit_vector);
}

/// Two derivation levels reach every five-card subset: the two-level minimum
/// lies at or below the valuation of the hand with any two of its cards
/// removed.
pub proof fn lemma_two_level_min_le(cards: u64, v: spec_fn(u64) -> int, worst: int, p: u64, q: u64)
    requires
        p < 52,
        q < 52,
        p != q,
        has_card(cards, p),
        has_card(cards, q),
    ensures
        two_level_min(cards, v, worst) <= v(remove_card(remove_card(cards, p), q)),
{
    let inner = |sub: u64| removal_min(sub, v, worst, 52);
    lemma_removal_min_le(cards, inner, worst, 52, p);
    lemma_remove_card_bits(cards, p, q);
    lemma_removal_min_le(remove_card(cards, p), v, worst, 52, q);
}

/// Two derivation levels invent nothing: the two-level minimum is the
/// sentinel or the valuation of the hand with two of its cards removed.
pub proof fn lemma_two_level_min_reached(cards: u64, v: spec_fn(u64) -> int, worst: int)
    ensures
        two_level_min(cards, v, worst) == worst || exists|p: u64, q: u64|
            p < 52 && q < 52 && p != q && has_card(cards, p) && has_card(cards, q)
                && two_level_min(cards, v, worst) == v(
                #[trigger] remove_card(remove_card(cards, p), q),
            ),
{
    let inner = |sub: u64| removal_min(sub, v, worst, 52);
    lemma_removal_min_reached(cards, inner, worst, 52);
    if two_level_min(cards, v, worst) != worst {
        let p = choose|p: u64|
            p < 52 && #[trigger] has_card(cards, p) && two_level_min(cards, v, worst) == inner(
                remove_card(cards, p),
            );
        let sub = remove_card(cards, p);
        lemma_removal_min_reached(sub, v, worst, 52);
        if inner(sub) != worst {
            let q = choose|q: u64|
                q < 52 && #[trigger] has_card(sub, q) && inner(sub) == v(remove_card(sub, q));
            lemma_remove_card_bits(cards, p, q);
            assert(has_card(cards, q) && q != p);
            assert(two_level_min(cards, v, worst) == v(remove_card(remove_card(cards, p), q)));
        }
    }
}

} // verus!
