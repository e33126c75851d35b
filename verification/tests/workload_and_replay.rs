use latency_lab::dense_book::book::{Book, DenseBook, TreeBook};
use latency_lab::dense_book::replay::{
    dense_can_replay, execute, replay, run_dense, run_tree, seed_book,
};
use latency_lab::dense_book::workload::{
    generate_workload, Operation, XorShift64, MAX_PRICE, MAX_QUANTITY, MIN_PRICE, OPERATION_COUNT,
    PRICE_COUNT, WORKLOAD_SEED,
};

#[test]
fn generator_steps_from_one() {
    let mut rng = XorShift64(1);
    assert_eq!(rng.next(), 0x4082_2041);
    assert_eq!(rng.next(), 0x1000_4106_0c01_1441);
    assert_eq!(rng.next(), 0x9b1e_842f_6e86_2629);
    assert_eq!(rng.0, 0x9b1e_842f_6e86_2629);
}

#[test]
fn generator_steps_from_the_workload_seed() {
    let mut rng = XorShift64(WORKLOAD_SEED);
    assert_eq!(rng.next(), 0x76e0_cf04_b412_ebd1);
    assert_eq!(rng.next(), 0xddb5_9041_d036_1a46);
    assert_eq!(rng.next(), 0xcd45_eba3_d2bc_27f2);
}

#[test]
fn generator_stays_at_zero_only_from_zero() {
    assert_eq!(XorShift64(0).next(), 0);
    let mut rng = XorShift64(u64::MAX);
    for _ in 0..1_000 {
        assert_ne!(rng.next(), 0);
    }
}

#[test]
fn generator_keeps_states_apart() {
    assert_ne!(XorShift64(2).next(), XorShift64(3).next());
    assert_ne!(XorShift64(1 << 63).next(), XorShift64(0).next());
}

#[test]
fn price_range_has_ten_thousand_prices() {
    assert_eq!(PRICE_COUNT, 10_000);
    assert_eq!(MAX_PRICE - MIN_PRICE, PRICE_COUNT);
}

#[test]
fn workload_starts_and_ends_as_drawn() {
    let operations = generate_workload();
    assert_eq!(operations.len(), 1_000_000);
    assert_eq!(
        operations[..10],
        [
            Operation::Lookup { price: 96_105 },
            Operation::Lookup { price: 98_174 },
            Operation::Lookup { price: 100_106 },
            Operation::Lookup { price: 98_469 },
            Operation::Lookup { price: 98_019 },
            Operation::Lookup { price: 101_400 },
            Operation::Lookup { price: 101_692 },
            Operation::Update { price: 99_992, qty: 857 },
            Operation::Update { price: 100_739, qty: 8_593 },
            Operation::Update { price: 101_673, qty: 6_561 },
        ]
    );
    assert_eq!(operations[999_999], Operation::Update { price: 97_120, qty: 7_328 });
}

#[test]
fn workload_has_seven_lookups_in_every_ten() {
    let operations = generate_workload();
    for window in operations.windows(10) {
        let lookups = window.iter().filter(|op| matches!(op, Operation::Lookup { .. })).count();
        assert_eq!(lookups, 7);
    }
    let lookups = operations.iter().filter(|op| matches!(op, Operation::Lookup { .. })).count();
    assert_eq!(lookups, 700_000);
    assert_eq!(OPERATION_COUNT - lookups, 300_000);
}

#[test]
fn workload_stays_in_its_ranges() {
    for operation in generate_workload() {
        match operation {
            Operation::Lookup { price } => assert!((MIN_PRICE..MAX_PRICE).contains(&price)),
            Operation::Update { price, qty } => {
                assert!((MIN_PRICE..MAX_PRICE).contains(&price));
                assert!((1..=MAX_QUANTITY).contains(&qty));
            }
        }
    }
}

#[test]
fn seeding_fills_every_price() {
    let tree = seed_book(TreeBook::default());
    let dense = seed_book(DenseBook::new(MIN_PRICE));
    for price in MIN_PRICE - 2..MAX_PRICE + 2 {
        let expected = if (MIN_PRICE..MAX_PRICE).contains(&price) {
            Some(1 + (price - MIN_PRICE) % 1_000)
        } else {
            None
        };
        assert_eq!(tree.quantity(price), expected);
        assert_eq!(dense.quantity(price), expected);
    }
    assert_eq!(tree.quantity(95_000), Some(1));
    assert_eq!(tree.quantity(95_999), Some(1_000));
    assert_eq!(tree.quantity(96_000), Some(1));
}

#[test]
fn seeding_keeps_other_levels_and_skips_uncovered_prices() {
    let mut tree = TreeBook::default();
    tree.update(5, 50);
    tree.update(95_001, 50);
    let tree = seed_book(tree);
    assert_eq!(tree.quantity(5), Some(50));
    assert_eq!(tree.quantity(95_001), Some(2));

    let dense = seed_book(DenseBook::new(100_000));
    assert_eq!(dense.quantity(99_999), None);
    assert_eq!(dense.quantity(100_000), Some(1));
    assert_eq!(dense.quantity(104_999), Some(1_000));
}

#[test]
fn execute_sums_what_lookups_find() {
    let operations = [
        Operation::Lookup { price: 100 },
        Operation::Update { price: 100, qty: 5 },
        Operation::Lookup { price: 100 },
        Operation::Update { price: 101, qty: 7 },
        Operation::Lookup { price: 101 },
        Operation::Update { price: 100, qty: 0 },
        Operation::Lookup { price: 100 },
        Operation::Update { price: 101, qty: 9 },
        Operation::Lookup { price: 101 },
    ];
    assert_eq!(execute(TreeBook::default(), &operations).1, 21);
    assert_eq!(execute(DenseBook::new(100), &operations).1, 21);
    assert_eq!(execute(TreeBook::default(), &[]).1, 0);
}

#[test]
fn replay_leaves_the_last_updates() {
    let operations = [
        Operation::Update { price: 100, qty: 5 },
        Operation::Lookup { price: 100 },
        Operation::Update { price: 102, qty: 8 },
        Operation::Update { price: 100, qty: 0 },
        Operation::Update { price: 102, qty: 9 },
        Operation::Update { price: 99, qty: 7 },
        Operation::Lookup { price: 102 },
    ];
    let mut tree = TreeBook::default();
    assert_eq!(replay(&mut tree, &operations), 14);
    let held: Vec<Option<u64>> = (98..104).map(|price| tree.quantity(price)).collect();
    assert_eq!(held, [None, Some(7), None, None, Some(9), None]);

    let mut dense = DenseBook::new(100);
    assert_eq!(replay(&mut dense, &operations), 14);
    let held: Vec<Option<u64>> = (98..104).map(|price| dense.quantity(price)).collect();
    assert_eq!(held, [None, None, None, None, Some(9), None]);
    assert_eq!(replay(&mut dense, &[]), 0);
}

#[test]
fn execute_wraps_around() {
    let operations = [
        Operation::Update { price: 1, qty: u64::MAX },
        Operation::Lookup { price: 1 },
        Operation::Lookup { price: 1 },
        Operation::Lookup { price: 1 },
    ];
    assert_eq!(execute(TreeBook::default(), &operations).1, u64::MAX - 2);
    assert_eq!(execute(DenseBook::new(0), &operations).1, u64::MAX - 2);
}

#[test]
fn runs_agree_on_the_generated_workload() {
    let operations = generate_workload();
    assert!(dense_can_replay(&operations));
    assert_eq!(run_tree(&operations).1, 3_396_921_744);
    assert_eq!(run_dense(&operations).1, 3_396_921_744);
}

#[test]
fn runs_start_from_seeded_books() {
    let operations = [
        Operation::Lookup { price: 95_009 },
        Operation::Lookup { price: 94_999 },
        Operation::Lookup { price: 105_000 },
    ];
    assert_eq!(run_tree(&operations).1, 10);
    assert_eq!(run_dense(&operations).1, 10);
}

#[test]
fn runs_differ_by_strays_below_the_base() {
    let operations = [
        Operation::Update { price: 94_999, qty: 6 },
        Operation::Lookup { price: 94_999 },
        Operation::Lookup { price: 95_000 },
    ];
    assert_eq!(run_tree(&operations).1, 7);
    assert_eq!(run_dense(&operations).1, 1);
}

#[test]
fn far_updates_are_too_much_for_the_dense_book() {
    assert!(dense_can_replay(&[]));
    assert!(dense_can_replay(&[Operation::Lookup { price: u64::MAX }]));
    assert!(dense_can_replay(&[Operation::Update { price: 0, qty: 1 }]));
    let limit = isize::MAX as u64 / 8;
    assert!(dense_can_replay(&[Operation::Update { price: MIN_PRICE + limit - 1, qty: 1 }]));
    assert!(!dense_can_replay(&[Operation::Update { price: MIN_PRICE + limit, qty: 1 }]));
}

#[test]
fn replays_compose_over_a_split() {
    let mut operations = vec![
        Operation::Update { price: 3, qty: 4 },
        Operation::Lookup { price: 3 },
    ];
    assert_eq!(execute(TreeBook::default(), &operations).1, 4);
    operations.extend([Operation::Lookup { price: 3 }, Operation::Lookup { price: 4 }]);
    assert_eq!(execute(TreeBook::default(), &operations).1, 8);
}
