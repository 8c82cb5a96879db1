use poker_eval::codec::{decode_table, encode_table};
use poker_eval::eval::{check_seven_cards, Evaluator};
use poker_eval::tables::{build_level_5, build_min_table, generate_tables, TableError};
use poker_eval::{TABLE_7_SIZE, WORST_STRENGTH};

#[test]
fn codec_round_trips_a_table() {
    let table = vec![0x0102u16, 0xabcd, 0, WORST_STRENGTH];
    let bytes = encode_table(&table);
    assert_eq!(bytes, vec![0x01u8, 0x02, 0xab, 0xcd, 0, 0, 0x1d, 0x26]);
    assert_eq!(decode_table(&bytes), Ok(table));
}

#[test]
fn decode_refuses_an_odd_byte_count() {
    assert_eq!(decode_table(&vec![1u8, 2, 3]), Err(TableError::OddByteLength));
    assert_eq!(decode_table(&Vec::new()), Ok(Vec::new()));
}

#[test]
fn generation_is_deterministic() {
    let mut classes = vec![WORST_STRENGTH; 400000];
    for (i, c) in classes.iter_mut().enumerate() {
        *c = (i % 7001) as u16;
    }
    let quads = 1u64 | 1 << 13 | 1 << 26 | 1 << 39 | 1 << 1;
    let hands = vec![0b11111u64, quads, 0b11111 << 13];

    let first = build_level_5(&classes, &hands).unwrap();
    let second = build_level_5(&classes, &hands).unwrap();
    assert_eq!(encode_table(&first), encode_table(&second));

    let rows = vec![vec![0u64, 1], vec![2, 0]];
    let six_a = build_min_table(&first, &rows).unwrap();
    let six_b = build_min_table(&second, &rows).unwrap();
    assert_eq!(encode_table(&six_a), encode_table(&six_b));
}

#[test]
fn generate_tables_chains_the_levels() {
    let mut classes = vec![WORST_STRENGTH; 400000];
    classes[373871] = 1;
    classes[1] = 322;
    let quads = 1u64 | 1 << 13 | 1 << 26 | 1 << 39 | 1 << 1;
    let hands_5 = vec![0b11111u64, quads];
    // Each higher slot minimises the level below over the listed ranks.
    let rows_6 = vec![vec![0u64, 1], vec![1]];
    let rows_7 = vec![vec![0u64, 1]];

    let (t5, t6, t7) = generate_tables(&classes, &hands_5, &rows_6, &rows_7).unwrap();
    assert_eq!(t5, vec![1u16, 322]);
    assert_eq!(t6, vec![1u16, 322]);
    assert_eq!(t7, vec![1u16]);

    // A rank outside the level below aborts the whole generation.
    let bad_rows_6 = vec![vec![0u64, 2]];
    assert_eq!(
        generate_tables(&classes, &hands_5, &bad_rows_6, &rows_7),
        Err(TableError::RankOutOfRange)
    );
}

#[test]
fn strength_lookup_is_bounds_checked() {
    let evaluator = Evaluator::from_entries(vec![7u16, 8, 9]);
    assert_eq!(evaluator.len(), 3);
    assert!(!evaluator.is_complete());
    assert_eq!(evaluator.strength_at(1), Some(8));
    assert_eq!(evaluator.strength_at(3), None);
}

#[test]
fn a_full_table_is_complete() {
    let evaluator = Evaluator::from_entries(vec![WORST_STRENGTH; TABLE_7_SIZE]);
    assert!(evaluator.is_complete());
    assert_eq!(evaluator.strength_at(TABLE_7_SIZE as u64 - 1), Some(WORST_STRENGTH));
    assert_eq!(evaluator.strength_at(TABLE_7_SIZE as u64), None);
}

#[test]
fn malformed_hands_fail_the_precondition_check() {
    let straight_flush = 1u64 << 12 | 1 << 11 | 1 << 10 | 1 << 9 | 1 << 8 | 1 << 25 | 1 << 38;
    assert!(check_seven_cards(straight_flush));

    // Six cards only: must be refused before any lookup.
    assert!(!check_seven_cards(1u64 << 12 | 1 << 11 | 1 << 10 | 1 << 9 | 1 << 8 | 1 << 25));
    // Eight cards: refused as well.
    assert!(!check_seven_cards(0xffu64));
    // Seven set bits, but one outside the 52-card universe.
    assert!(!check_seven_cards(1u64 << 52 | 0b111111));
    assert!(!check_seven_cards(0));
}
