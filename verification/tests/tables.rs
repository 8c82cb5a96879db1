use poker_eval::classify::classify;
use poker_eval::hands::{count_cards, sub_hands};
use poker_eval::tables::{build_level_5, build_min_table, min_over, TableError};
use poker_eval::WORST_STRENGTH;

#[test]
fn count_cards_counts_the_universe() {
    assert_eq!(count_cards(0), 0);
    assert_eq!(count_cards(0b11111), 5);
    let seven = 1u64 << 12 | 1 << 11 | 1 << 10 | 1 << 9 | 1 << 8 | 1 << 25 | 1 << 38;
    assert_eq!(count_cards(seven), 7);
    // A bit outside the 52-card universe is not a card.
    assert_eq!(count_cards(1u64 << 52), 0);
}

#[test]
fn classify_flush_hand() {
    // Five cards of ranks 0..5, all in the first suit lane: a flush, so the
    // fold starts at 1 and folds the ranks 0,1,2,3,4 in base 13.
    assert_eq!(classify(0b11111), 373871);
}

#[test]
fn classify_ties_flushes_to_the_first_lane() {
    // The same five ranks in the second suit lane: canonical hands place a
    // flush's suit first, so this does not take the flush offset.
    let hand = 0b11111u64 << 13;
    assert_eq!(classify(hand), 2578);
}

#[test]
fn classify_quads_hand() {
    // Rank 0 in all four lanes plus a rank-1 kicker in the first lane:
    // not a flush, and the fold gives 1.
    let hand = 1u64 | 1 << 13 | 1 << 26 | 1 << 39 | 1 << 1;
    assert_eq!(classify(hand), 1);
}

#[test]
fn sub_hands_lists_every_single_removal() {
    assert_eq!(sub_hands(0b111), vec![0b110, 0b101, 0b011]);
    assert_eq!(sub_hands(0), Vec::<u64>::new());
    let hand = 1u64 << 3 | 1 << 40;
    assert_eq!(sub_hands(hand), vec![1u64 << 40, 1u64 << 3]);
}

#[test]
fn min_over_folds_from_the_sentinel() {
    let table = vec![5u16, 3, 9];
    assert_eq!(min_over(&table, &vec![0, 2]), Ok(5));
    assert_eq!(min_over(&table, &vec![1, 1, 2]), Ok(3));
    assert_eq!(min_over(&table, &Vec::new()), Ok(WORST_STRENGTH));
    assert_eq!(min_over(&table, &vec![0, 3]), Err(TableError::RankOutOfRange));
}

#[test]
fn build_level_5_reads_the_class_table() {
    let mut classes = vec![WORST_STRENGTH; 400000];
    classes[373871] = 1;
    classes[1] = 322;
    let quads = 1u64 | 1 << 13 | 1 << 26 | 1 << 39 | 1 << 1;
    let hands = vec![0b11111u64, quads];
    assert_eq!(build_level_5(&classes, &hands), Ok(vec![1u16, 322]));
}

#[test]
fn build_level_5_refuses_a_wrong_card_count() {
    let classes = vec![WORST_STRENGTH; 400000];
    let hands = vec![0b1111u64];
    assert_eq!(build_level_5(&classes, &hands), Err(TableError::WrongCardCount));
}

#[test]
fn build_level_5_refuses_a_short_class_table() {
    let classes = vec![WORST_STRENGTH; 100];
    let hands = vec![0b11111u64];
    assert_eq!(build_level_5(&classes, &hands), Err(TableError::ShapeOutOfRange));
}

#[test]
fn build_min_table_minimises_each_row() {
    let table_sub = vec![10u16, 20, 5, WORST_STRENGTH];
    let rows = vec![vec![0u64, 1], vec![2], vec![]];
    assert_eq!(build_min_table(&table_sub, &rows), Ok(vec![10u16, 5, WORST_STRENGTH]));
    let bad = vec![vec![0u64, 4]];
    assert_eq!(build_min_table(&table_sub, &bad), Err(TableError::RankOutOfRange));
}

/// An arbitrary deterministic strength for a five-card mask, for checking
/// the reduction against brute force.
fn toy_strength(hand: u64) -> u16 {
    (hand % 7001) as u16
}

#[test]
fn two_level_reduction_matches_all_21_subsets() {
    let seven = 1u64 | 1 << 1 | 1 << 2 | 1 << 13 | 1 << 14 | 1 << 26 | 1 << 39;

    // Derive: minimise once per level over single-card removals.
    let mut derived = WORST_STRENGTH;
    for six in sub_hands(seven) {
        let mut level6 = WORST_STRENGTH;
        for five in sub_hands(six) {
            level6 = level6.min(toy_strength(five));
        }
        derived = derived.min(level6);
    }

    // Brute force: every five-card subset, i.e. every pair of removed cards.
    let mut direct = WORST_STRENGTH;
    for p in 0..52u64 {
        for q in 0..p {
            if seven & 1 << p != 0 && seven & 1 << q != 0 {
                direct = direct.min(toy_strength(seven & !(1 << p) & !(1 << q)));
            }
        }
    }

    assert_eq!(derived, direct);
}

#[test]
fn two_level_reduction_exhaustive_on_a_small_universe() {
    // Every seven-card hand drawn from the lowest ten card positions.
    for mask in 0u64..(1 << 10) {
        if mask.count_ones() != 7 {
            continue;
        }

        let mut derived = WORST_STRENGTH;
        for six in sub_hands(mask) {
            let mut level6 = WORST_STRENGTH;
            for five in sub_hands(six) {
                level6 = level6.min(toy_strength(five));
            }
            derived = derived.min(level6);
        }

        let mut direct = WORST_STRENGTH;
        for p in 0..10u64 {
            for q in 0..p {
                if mask & 1 << p != 0 && mask & 1 << q != 0 {
                    direct = direct.min(toy_strength(mask & !(1 << p) & !(1 << q)));
                }
            }
        }

        assert_eq!(derived, direct);
    }
}
