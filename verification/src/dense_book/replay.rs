//! Seeding a book, replaying operations against it, and what the answers add up to.
use crate::dense_book::book::{Book, DenseBook, TreeBook};
use crate::dense_book::workload::{Operation, MAX_PRICE, MIN_PRICE};
use crate::dense_book::stopwatch::TimedBook;
use std::time::Duration;
use vstd::prelude::*;

verus! {

use crate::dense_book::book::{dense_addressable, dense_covered, level_at, set_level};

/// The quantity with which seeding fills `price`.
pub open spec fn seed_quantity(price: u64) -> u64 {
    (1 + (price - MIN_PRICE) % 1_000) as u64
}

/// `levels` with every price from `MIN_PRICE` up to `limit` set to its seed quantity, as
/// far as the prices are `covered`.
pub open spec fn seeded_below(
    levels: Map<u64, u64>,
    covered: Set<u64>,
    limit: int,
) -> Map<u64, u64> {
    Map::new(
        |price: u64|
            levels.contains_key(price) || (MIN_PRICE <= price < limit && covered.contains(price)),
        |price: u64|
            if MIN_PRICE <= price < limit && covered.contains(price) {
                seed_quantity(price)
            } else {
                levels[price]
            },
    )
}

/// The levels of a book that held `levels`, after seeding.
pub open spec fn seeded(levels: Map<u64, u64>, covered: Set<u64>) -> Map<u64, u64> {
    seeded_below(levels, covered, MAX_PRICE as int)
}

/// What a book that held `content` holds after seeding the prices from `MIN_PRICE` up to
/// `limit`, one after the other.
pub open spec fn content_seeded_below<B: Book>(content: B::Content, limit: nat) -> B::Content
    decreases limit,
{
    if limit <= MIN_PRICE {
        content
    } else {
        let price = (limit - 1) as u64;
        B::content_after(
            content_seeded_below::<B>(content, (limit - 1) as nat),
            price,
            seed_quantity(price),
        )
    }
}

/// What a book that held `content` holds after seeding.
pub open spec fn content_seeded<B: Book>(content: B::Content) -> B::Content {
    content_seeded_below::<B>(content, MAX_PRICE as nat)
}

/// Fills every price of the workload with a quantity from 1 to 1000.
pub fn seed_book<B: Book>(book: B) -> (filled: B)
    requires
        book.wf(),
        forall|price: u64|
            MIN_PRICE <= price < MAX_PRICE ==> #[trigger] book.addressable().contains(price),
    ensures
        filled.wf(),
        filled.content() == content_seeded::<B>(book.content()),
        filled.covered() == book.covered(),
        filled.addressable() == book.addressable(),
        filled.levels() == seeded(book.levels(), book.covered()),
{
    let ghost content = book.content();
    let ghost levels = book.levels();
    let ghost covered = book.covered();
    let ghost addressable = book.addressable();
    let mut book = book;
    assert(levels =~= seeded_below(levels, covered, MIN_PRICE as int));
    for price in MIN_PRICE..MAX_PRICE
        invariant
            book.wf(),
            book.covered() == covered,
            book.addressable() == addressable,
            forall|price: u64|
                MIN_PRICE <= price < MAX_PRICE ==> #[trigger] addressable.contains(price),
            book.content() == content_seeded_below::<B>(content, price as nat),
            book.levels() == seeded_below(levels, covered, price as int),
    {
        book.update(price, 1 + (price - MIN_PRICE) % 1_000);
        assert(book.levels() =~= seeded_below(levels, covered, price + 1));
    }
    book
}

/// The levels of a book that held `levels` and takes the `covered` prices, after
/// `operations`.
pub open spec fn levels_after(
    levels: Map<u64, u64>,
    covered: Set<u64>,
    operations: Seq<Operation>,
) -> Map<u64, u64>
    decreases operations.len(),
{
    if operations.len() == 0 {
        levels
    } else {
        let before = levels_after(levels, covered, operations.drop_last());
        match operations.last() {
            Operation::Update { price, qty } if covered.contains(price) => set_level(
                before,
                price,
                qty,
            ),
            _ => before,
        }
    }
}

/// The quantity at `price`, or zero where there is no level.
pub open spec fn quantity_or_zero(levels: Map<u64, u64>, price: u64) -> nat {
    match level_at(levels, price) {
        Some(qty) => qty as nat,
        None => 0,
    }
}

/// The sum of what the lookups among `operations` find, each at its turn.
pub open spec fn lookup_total(
    levels: Map<u64, u64>,
    covered: Set<u64>,
    operations: Seq<Operation>,
) -> nat
    decreases operations.len(),
{
    if operations.len() == 0 {
        0
    } else {
        let earlier = operations.drop_last();
        lookup_total(levels, covered, earlier) + match operations.last() {
            Operation::Lookup { price } => quantity_or_zero(
                levels_after(levels, covered, earlier),
                price,
            ),
            Operation::Update { .. } => 0,
        }
    }
}

/// The sum of what the lookups find, as far as 64 bits hold it.
pub open spec fn checksum(
    levels: Map<u64, u64>,
    covered: Set<u64>,
    operations: Seq<Operation>,
) -> u64 {
    (lookup_total(levels, covered, operations) % 0x1_0000_0000_0000_0000) as u64
}

/// Whether every update among `operations` is at an `addressable` price.
pub open spec fn updates_within(addressable: Set<u64>, operations: Seq<Operation>) -> bool {
    forall|i: int|
        0 <= i < operations.len() ==> (#[trigger] operations[i] matches Operation::Update {
            price,
            ..
        } ==> addressable.contains(price))
}

/// What a book that held `content` holds after `operations`: every update among them, once
/// and in their order.
pub open spec fn content_replayed<B: Book>(
    content: B::Content,
    operations: Seq<Operation>,
) -> B::Content
    decreases operations.len(),
{
    if operations.len() == 0 {
        content
    } else {
        let before = content_replayed::<B>(content, operations.drop_last());
        match operations.last() {
            Operation::Update { price, qty } => B::content_after(before, price, qty),
            Operation::Lookup { .. } => before,
        }
    }
}

/// Replays `operations` against `book`, and returns the sum of what the lookups found.
pub fn replay<B: Book>(book: &mut B, operations: &[Operation]) -> (sum: u64)
    requires
        old(book).wf(),
        updates_within(old(book).addressable(), operations@),
    ensures
        final(book).wf(),
        final(book).content() == content_replayed::<B>(old(book).content(), operations@),
        final(book).levels() == levels_after(
            old(book).levels(),
            old(book).covered(),
            operations@,
        ),
        final(book).covered() == old(book).covered(),
        final(book).addressable() == old(book).addressable(),
        sum == checksum(old(book).levels(), old(book).covered(), operations@),
{
    let ghost content = book.content();
    let ghost levels = book.levels();
    let ghost covered = book.covered();
    let ghost addressable = book.addressable();
    let mut sum: u64 = 0;

    for i in 0..operations.len()
        invariant
            book.wf(),
            book.covered() == covered,
            book.addressable() == addressable,
            updates_within(addressable, operations@),
            book.content() == content_replayed::<B>(content, operations@.take(i as int)),
            book.levels() == levels_after(levels, covered, operations@.take(i as int)),
            sum == checksum(levels, covered, operations@.take(i as int)),
    {
        assert(operations@.take(i + 1).drop_last() =~= operations@.take(i as int));
        assert(operations@.take(i + 1).last() == operations@[i as int]);
        match operations[i] {
            Operation::Lookup { price } => {
                let found: u64 = match book.quantity(price) {
                    Some(qty) => qty,
                    None => 0,
                };
                sum = sum.wrapping_add(found);
            },
            Operation::Update { price, qty } => book.update(price, qty),
        }
    }
    assert(operations@.take(operations@.len() as int) =~= operations@);
    sum
}

/// Replays `operations` against `book`, and returns how long that took and the sum of
/// what the lookups found.
///
/// The time is the one from starting the clock on `book` as it is to stopping it on the
/// book as the replay left it. Nothing is claimed of how long that is.
pub fn execute<B: Book>(book: B, operations: &[Operation]) -> (outcome: (Duration, u64))
    requires
        book.wf(),
        updates_within(book.addressable(), operations@),
    ensures
        outcome.1 == checksum(book.levels(), book.covered(), operations@),
        exists|ready: TimedBook<B>, played: TimedBook<B>|
            {
                &&& call_ensures(TimedBook::<B>::start, (book,), ready)
                &&& #[trigger] call_ensures(
                    TimedBook::<B>::replay,
                    (ready, operations),
                    (played, outcome.1),
                )
                &&& call_ensures(TimedBook::<B>::stop, (played,), outcome.0)
            },
{
    let ready = TimedBook::start(book);
    let (played, sum) = ready.replay(operations);
    let outcome = (played.stop(), sum);
    assert(outcome.1 == sum);
    outcome
}

/// The checksum of `operations` on a freshly seeded [`TreeBook`].
pub open spec fn tree_checksum(operations: Seq<Operation>) -> u64 {
    checksum(seeded(Map::empty(), Set::full()), Set::full(), operations)
}

/// The checksum of `operations` on a freshly seeded [`DenseBook`].
pub open spec fn dense_checksum(operations: Seq<Operation>) -> u64 {
    checksum(
        seeded(Map::empty(), dense_covered(MIN_PRICE)),
        dense_covered(MIN_PRICE),
        operations,
    )
}

/// Replays `operations` against a freshly seeded [`TreeBook`].
pub fn run_tree(operations: &[Operation]) -> (outcome: (Duration, u64))
    ensures
        outcome.1 == tree_checksum(operations@),
        exists|empty: TreeBook, filled: TreeBook|
            {
                &&& empty.levels() == Map::<u64, u64>::empty()
                &&& #[trigger] call_ensures(seed_book::<TreeBook>, (empty,), filled)
                &&& #[trigger] call_ensures(execute::<TreeBook>, (filled, operations), outcome)
            },
{
    let empty = TreeBook::default();
    let filled = seed_book(empty);
    execute(filled, operations)
}

/// Whether a [`DenseBook`] on `MIN_PRICE` can carry out every update among `operations`.
pub fn dense_can_replay(operations: &[Operation]) -> (can: bool)
    ensures
        can == updates_within(dense_addressable(MIN_PRICE), operations@),
        can <==> forall|i: int|
            0 <= i < operations@.len() ==> (#[trigger] operations@[i] matches Operation::Update {
                price,
                ..
            } ==> price < 95_000 || price - 95_000 > usize::MAX || price - 95_000
                < isize::MAX as int / 8),
{
    for i in 0..operations.len()
        invariant
            updates_within(dense_addressable(MIN_PRICE), operations@.take(i as int)),
    {
        if let Operation::Update { price, .. } = operations[i] {
            if price >= MIN_PRICE {
                let offset: u64 = price - MIN_PRICE;
                if offset <= usize::MAX as u64 && offset >= isize::MAX as u64 / 8 {
                    assert(!dense_addressable(MIN_PRICE).contains(price));
                    assert(operations@[i as int] == operations[i as int]);
                    return false;
                }
            }
        }
        assert(operations@.take(i + 1) =~= operations@.take(i as int).push(operations@[i as int]));
    }
    assert(operations@.take(operations@.len() as int) =~= operations@);
    true
}

/// Replays `operations` against a freshly seeded [`DenseBook`] on `MIN_PRICE`.
pub fn run_dense(operations: &[Operation]) -> (outcome: (Duration, u64))
    requires
        updates_within(dense_addressable(MIN_PRICE), operations@),
    ensures
        outcome.1 == dense_checksum(operations@),
        exists|empty: DenseBook, filled: DenseBook|
            {
                &&& empty.base() == MIN_PRICE
                &&& empty.slots() == Seq::<u64>::empty()
                &&& #[trigger] call_ensures(seed_book::<DenseBook>, (empty,), filled)
                &&& #[trigger] call_ensures(execute::<DenseBook>, (filled, operations), outcome)
            },
{
    let empty = DenseBook::new(MIN_PRICE);
    let filled = seed_book(empty);
    execute(filled, operations)
}

} // verus!
