use latency_lab::dense_book::config::Selection as Books;
use latency_lab::dense_book::session::{
    run_book, BookKind, Measurements as BookMeasurements, Mismatch, Session as BookSession,
};
use latency_lab::dense_book::workload::{Operation, XorShift64};
use latency_lab::false_sharing::config::Selection as Layouts;
use latency_lab::false_sharing::counting::{
    checksum, expected_checksum, layouts_match, total_updates, Footprint,
};
use latency_lab::false_sharing::protocol::{coordinator_script, worker_script, Step, PARTIES};
use latency_lab::false_sharing::session::{
    LayoutKind, Measurements as LayoutMeasurements, MissedUpdates, Session as LayoutSession,
};
use latency_lab::statistics::{median, summarize, Middle, Summary};

#[test]
fn books_alternate() {
    assert_eq!(Books::Both.warmup_order(), [BookKind::Tree, BookKind::Dense]);
    assert_eq!(Books::Both.run_order(1), [BookKind::Tree, BookKind::Dense]);
    assert_eq!(Books::Both.run_order(2), [BookKind::Dense, BookKind::Tree]);
    assert_eq!(Books::Both.run_order(3), [BookKind::Tree, BookKind::Dense]);
}

#[test]
fn single_books_run_alone() {
    for run in 1..4 {
        assert_eq!(Books::Tree.run_order(run), [BookKind::Tree]);
        assert_eq!(Books::Dense.run_order(run), [BookKind::Dense]);
    }
    assert_eq!(Books::Tree.warmup_order(), [BookKind::Tree]);
    assert_eq!(Books::Dense.warmup_order(), [BookKind::Dense]);
}

#[test]
fn book_session_hands_out_every_step_once() {
    let mut session = BookSession::new(Books::Both, 3);
    let expected = [
        (1, BookKind::Tree),
        (1, BookKind::Dense),
        (2, BookKind::Dense),
        (2, BookKind::Tree),
        (3, BookKind::Tree),
        (3, BookKind::Dense),
    ];
    for step in expected {
        assert_eq!(session.next(), Some(step));
    }
    assert_eq!(session.next(), None);
    assert_eq!(session.next(), None);
}

#[test]
fn book_session_of_one_book() {
    let mut session = BookSession::new(Books::Dense, 2);
    assert_eq!(session.next(), Some((1, BookKind::Dense)));
    assert_eq!(session.next(), Some((2, BookKind::Dense)));
    assert_eq!(session.next(), None);
    assert_eq!(BookSession::new(Books::Tree, 0).next(), None);
    assert_eq!(BookSession::new(Books::Tree, usize::MAX).next(), Some((1, BookKind::Tree)));
}

#[test]
fn layout_session_hands_out_every_step_once() {
    let mut session = LayoutSession::new(Layouts::Both, 2);
    let expected = [
        (1, LayoutKind::Shared),
        (1, LayoutKind::Padded),
        (2, LayoutKind::Padded),
        (2, LayoutKind::Shared),
    ];
    for step in expected {
        assert_eq!(session.next(), Some(step));
    }
    assert_eq!(session.next(), None);
    let mut session = LayoutSession::new(Layouts::Padded, 1);
    assert_eq!(session.next(), Some((1, LayoutKind::Padded)));
    assert_eq!(session.next(), None);
}

#[test]
fn run_book_picks_the_book() {
    let operations = [
        Operation::Update { price: 1, qty: 3 },
        Operation::Lookup { price: 1 },
        Operation::Lookup { price: 95_001 },
    ];
    assert_eq!(run_book(BookKind::Tree, &operations).1, 5);
    assert_eq!(run_book(BookKind::Dense, &operations).1, 2);
}

#[test]
fn equal_checksums_are_kept() {
    let mut kept = BookMeasurements::new();
    assert_eq!(kept.record(BookKind::Tree, 10, 42), Ok(()));
    assert_eq!(kept.record(BookKind::Dense, 20, 42), Ok(()));
    assert_eq!(kept.record(BookKind::Dense, 15, 42), Ok(()));
    assert_eq!(*kept.nanos(BookKind::Tree), [10]);
    assert_eq!(*kept.nanos(BookKind::Dense), [20, 15]);
}

#[test]
fn another_checksum_is_refused() {
    let mut kept = BookMeasurements::new();
    assert!(kept.nanos(BookKind::Tree).is_empty());
    assert_eq!(kept.record(BookKind::Tree, 10, 42), Ok(()));
    assert_eq!(kept.record(BookKind::Dense, 20, 43), Err(Mismatch { expected: 42 }));
    assert!(kept.nanos(BookKind::Dense).is_empty());
    assert_eq!(kept.record(BookKind::Dense, 20, 42), Ok(()));
}

#[test]
fn layouts_alternate() {
    assert_eq!(Layouts::Both.warmup_order(), [LayoutKind::Shared, LayoutKind::Padded]);
    assert_eq!(Layouts::Both.run_order(1), [LayoutKind::Shared, LayoutKind::Padded]);
    assert_eq!(Layouts::Both.run_order(2), [LayoutKind::Padded, LayoutKind::Shared]);
    assert_eq!(Layouts::Shared.run_order(2), [LayoutKind::Shared]);
    assert_eq!(Layouts::Padded.run_order(1), [LayoutKind::Padded]);
    assert_eq!(Layouts::Shared.warmup_order(), [LayoutKind::Shared]);
    assert_eq!(Layouts::Padded.warmup_order(), [LayoutKind::Padded]);
}

#[test]
fn missed_updates_are_refused() {
    let mut kept = LayoutMeasurements::new(21);
    assert_eq!(kept.record(LayoutKind::Shared, 10, 42), Ok(()));
    assert_eq!(kept.record(LayoutKind::Padded, 11, 41), Err(MissedUpdates { expected: 42 }));
    assert_eq!(kept.record(LayoutKind::Padded, 12, 42), Ok(()));
    assert_eq!(*kept.nanos(LayoutKind::Shared), [10]);
    assert_eq!(*kept.nanos(LayoutKind::Padded), [12]);
}

#[test]
fn checksums_wrap_and_totals_saturate() {
    assert_eq!(checksum(3, 4), 7);
    assert_eq!(checksum(u64::MAX, 2), 1);
    assert_eq!(expected_checksum(50_000_000), 100_000_000);
    assert_eq!(expected_checksum(u64::MAX), u64::MAX - 1);
    assert_eq!(total_updates(50_000_000), 100_000_000);
    assert_eq!(total_updates(u64::MAX / 2), u64::MAX - 1);
    assert_eq!(total_updates(u64::MAX / 2 + 1), u64::MAX);
}

#[test]
fn layouts_fill_their_lines() {
    let line = Footprint { align: 64, size: 64 };
    let lines = Footprint { align: 64, size: 128 };
    assert!(layouts_match(64, line, lines));
    assert!(!layouts_match(128, line, lines));
    assert!(!layouts_match(64, Footprint { align: 8, size: 16 }, lines));
    assert!(!layouts_match(64, line, Footprint { align: 64, size: 129 }));
    assert!(!layouts_match(64, line, Footprint { align: 8, size: 128 }));
    assert!(!layouts_match(64, line, line));
}

#[test]
fn scripts_meet_three_times() {
    let worker = worker_script(5);
    let coordinator = coordinator_script();
    assert_eq!(worker, [Step::Wait, Step::Wait, Step::Increment { times: 5 }, Step::Wait]);
    assert_eq!(
        coordinator,
        [Step::Wait, Step::StartClock, Step::Wait, Step::Wait, Step::StopClock]
    );
    let waits = |script: &[Step]| script.iter().filter(|step| **step == Step::Wait).count();
    assert_eq!(waits(&worker), 3);
    assert_eq!(waits(&coordinator), 3);
    assert_eq!(PARTIES, 3);
}

/// Runs the three scripts one small step at a time, letting `choice` pick who moves.
fn interleave(iterations: u64, start: [u64; 2], mut choice: XorShift64) -> [u64; 2] {
    let worker = worker_script(iterations);
    let coordinator = coordinator_script();
    let mut at = [0, 0, 0];
    let mut made = [0, 0];
    let ended = start.map(|count| count.wrapping_add(iterations));
    let mut counters = start;
    let mut clock_runs = false;
    loop {
        let next = [worker.get(at[0]), worker.get(at[1]), coordinator.get(at[2])];
        if next == [None, None, None] {
            return counters;
        }
        if next == [Some(&Step::Wait); PARTIES] {
            at = at.map(|position| position + 1);
            continue;
        }
        let party = (choice.next() % 3) as usize;
        match next[party] {
            Some(Step::Increment { times }) if made[party] < *times => {
                assert!(clock_runs);
                made[party] += 1;
                counters[party] = counters[party].wrapping_add(1);
            }
            Some(Step::Increment { .. }) => at[party] += 1,
            Some(Step::StartClock) => {
                assert_eq!(counters, start);
                clock_runs = true;
                at[party] += 1;
            }
            Some(Step::StopClock) => {
                assert_eq!(counters, ended);
                clock_runs = false;
                at[party] += 1;
            }
            Some(Step::Wait) | None => {}
        }
    }
}

#[test]
fn parties_that_follow_the_scripts_miss_no_update() {
    for seed in 1..50 {
        for iterations in [0, 1, 2, 30] {
            let [producer, consumer] = interleave(iterations, [0, 0], XorShift64(seed));
            assert_eq!(producer, iterations);
            assert_eq!(consumer, iterations);
            assert_eq!(checksum(producer, consumer), expected_checksum(iterations));
        }
    }
}

#[test]
fn used_counters_go_on_from_where_they_are() {
    let [producer, consumer] = interleave(30, [u64::MAX - 9, 5], XorShift64(3));
    assert_eq!(producer, 20);
    assert_eq!(consumer, 35);
    assert_eq!(checksum(producer, consumer), checksum(u64::MAX - 9, 5).wrapping_add(60));
}

#[test]
fn median_of_odd_and_even_counts() {
    assert_eq!(median(&[5]), Middle::One(5));
    assert_eq!(median(&[9, 1, 4]), Middle::One(4));
    assert_eq!(median(&[2, 1]), Middle::Two(1, 2));
    assert_eq!(median(&[8, 3, 8, 1]), Middle::Two(3, 8));
    assert_eq!(median(&[7, 7, 7, 7, 0, 0, 9]), Middle::One(7));
}

#[test]
fn median_does_not_depend_on_the_order() {
    assert_eq!(median(&[1, 2, 3, 4, 5, 6]), median(&[6, 3, 1, 5, 2, 4]));
}

#[test]
fn median_has_half_of_the_values_on_either_side() {
    let samples: [&[u128]; 4] = [&[4], &[1, 9, 5, 5, 2], &[3, 3, 8, 1], &[0, 7]];
    for values in samples {
        let (lower, upper) = match median(values) {
            Middle::One(middle) => {
                assert_eq!(values.len() % 2, 1);
                (middle, middle)
            }
            Middle::Two(lower, upper) => (lower, upper),
        };
        assert!(values.contains(&lower) && values.contains(&upper));
        assert!(2 * values.iter().filter(|value| **value <= lower).count() >= values.len());
        assert!(2 * values.iter().filter(|value| **value >= upper).count() >= values.len());
    }
}

#[test]
fn summary_holds_the_extremes() {
    assert_eq!(
        summarize(&[30, 10, 20, 40]),
        Summary { minimum: 10, median: Middle::Two(20, 30), maximum: 40 }
    );
    assert_eq!(
        summarize(&[u128::MAX]),
        Summary { minimum: u128::MAX, median: Middle::One(u128::MAX), maximum: u128::MAX }
    );
}
