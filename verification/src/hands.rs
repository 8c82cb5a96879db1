//! Hands as bit masks: membership, removal, card counting, and the list of
//! single-card removals that the table builders minimise over.

use vstd::prelude::*;

verus! {

/// True when the card at bit position `p` is present in `cards`.
pub open spec fn has_card(cards: u64, p: u64) -> bool {
    cards & (1u64 << p) != 0
}

/// `cards` with the card at bit position `p` taken out.
pub open spec fn remove_card(cards: u64, p: u64) -> u64 {
    cards & !(1u64 << p)
}

/// Bit position visited at step `i` of the canonical scan: ranks ascend,
/// and within a rank the four suit lanes of 13 are visited in order.
pub open spec fn scan_pos(i: u64) -> u64 {
    (i / 4 + (i % 4) * 13) as u64
}

/// Number of cards found in the first `n` steps of the canonical scan.
pub open spec fn count_scanned(cards: u64, n: nat) -> nat
    decreases n,
{
    if n == 0 {
        0
    } else {
        count_scanned(cards, (n - 1) as nat) + if has_card(cards, scan_pos((n - 1) as u64)) {
            1nat
        } else {
            0nat
        }
    }
}

/// Number of cards of `cards` inside the 52-card universe.
pub open spec fn card_count(cards: u64) -> nat {
    count_scanned(cards, 52)
}

/// A well-formed `k`-card hand: no bits outside the universe, `k` cards in it.
pub open spec fn valid_hand(cards: u64, k: nat) -> bool {
    cards >> 52 == 0 && card_count(cards) == k
}

pub proof fn lemma_count_scanned_mono(cards: u64, m: nat, n: nat)
    requires
        m <= n,
    ensures
        count_scanned(cards, m) <= count_scanned(cards, n),
    decreases n,
{
    if m < n {
        lemma_count_scanned_mono(cards, m, (n - 1) as nat);
    }
}

/// Counts the cards of `cards`, scanning the 52 card positions.
pub fn count_cards(cards: u64) -> (n: u64)
    ensures
        n == card_count(cards),
{
    let mut n: u64 = 0;
    for i in 0..52u64
        invariant
            n == count_scanned(cards, i as nat),
            n <= i,
    {
        let p = i / 4 + (i % 4) * 13;
        assert(p == scan_pos(i));
        if cards & (1u64 << p) != 0 {
            n = n + 1;
        }
    }
    n
}

/// The single-card removals of `cards` at positions below `n`, the removed
/// position ascending.
pub open spec fn removals_upto(cards: u64, n: nat) -> Seq<u64>
    decreases n,
{
    if n == 0 {
        Seq::empty()
    } else if has_card(cards, (n - 1) as u64) {
        removals_upto(cards, (n - 1) as nat).push(remove_card(cards, (n - 1) as u64))
    } else {
        removals_upto(cards, (n - 1) as nat)
    }
}

/// All hands reachable from `cards` by removing exactly one card, the removed
/// position ascending.
pub open spec fn removals(cards: u64) -> Seq<u64> {
    removals_upto(cards, 52)
}

/// Every listed removal comes from clearing one present card.
pub proof fn lemma_removals_sound(cards: u64, n: nat, s: int)
    requires
        0 <= s < removals_upto(cards, n).len(),
        n <= 52,
    ensures
        exists|p: u64|
            p < n && has_card(cards, p) && removals_upto(cards, n)[s] == remove_card(cards, p),
    decreases n,
{
    if n > 0 {
        if has_card(cards, (n - 1) as u64) && s == removals_upto(cards, (n - 1) as nat).len() {
            assert(removals_upto(cards, n)[s] == remove_card(cards, (n - 1) as u64));
        } else {
            lemma_removals_sound(cards, (n - 1) as nat, s);
        }
    }
}

/// Clearing any present card yields a listed removal.
pub proof fn lemma_removals_complete(cards: u64, n: nat, p: u64)
    requires
        p < n,
        n <= 52,
        has_card(cards, p),
    ensures
        removals_upto(cards, n).contains(remove_card(cards, p)),
    decreases n,
{
    if p == (n - 1) as u64 {
        assert(removals_upto(cards, n)[removals_upto(cards, (n - 1) as nat).len() as int]
            == remove_card(cards, p));
    } else {
        lemma_removals_complete(cards, (n - 1) as nat, p);
        let i = choose|i: int|
            0 <= i < removals_upto(cards, (n - 1) as nat).len() && #[trigger] removals_upto(
                cards,
                (n - 1) as nat,
            )[i] == remove_card(cards, p);
        assert(removals_upto(cards, n)[i] == remove_card(cards, p));
    }
}

/// A shorter removal list is a prefix of a longer one.
pub proof fn lemma_removals_prefix(cards: u64, m: nat, n: nat, s: int)
    requires
        m <= n,
        0 <= s < removals_upto(cards, m).len(),
    ensures
        removals_upto(cards, m).len() <= removals_upto(cards, n).len(),
        removals_upto(cards, n)[s] == removals_upto(cards, m)[s],
    decreases n,
{
    if m < n {
        lemma_removals_prefix(cards, m, (n - 1) as nat, s);
    }
}

/// Lists the single-card removals of `cards`, lowest removed card first.
pub fn sub_hands(cards: u64) -> (subs: Vec<u64>)
    ensures
        subs@ == removals(cards),
{
    let mut subs: Vec<u64> = Vec::new();
    for p in 0..52u64
        invariant
            subs@ == removals_upto(cards, p as nat),
    {
        if cards & (1u64 << p) != 0 {
            subs.push(cards & !(1u64 << p));
        }
    }
    subs
}

} // verus!
