//! What the books and their replays do, said of prices, quantities and operations alone.
use vstd::prelude::*;

verus! {

use crate::dense_book::agreement::{
    last_update_wins,
    runs_agree_on_covered_updates,
    untouched_price_keeps_its_level,
};
use crate::dense_book::book::{
    dense_addressable,
    dense_covered,
    dense_levels,
    dense_slots_after,
    level_at,
    set_level,
    slots_after,
    Book,
    DenseBook,
    TreeBook,
};
use crate::dense_book::replay::{
    checksum,
    content_replayed,
    content_seeded,
    content_seeded_below,
    dense_checksum,
    levels_after,
    lookup_total,
    quantity_or_zero,
    seed_quantity,
    seeded,
    tree_checksum,
    updates_within,
};
use crate::dense_book::workload::{Operation, MIN_PRICE};
use vstd::arithmetic::div_mod::lemma_add_mod_noop_right;

/// A lookup finds the quantity that the levels give the price, and nothing where they
/// give none: nowhere without levels.
pub proof fn lookup_finds_what_is_held(levels: Map<u64, u64>, price: u64, qty: u64)
    ensures
        level_at(levels, price) == Some(qty) <==> levels.contains_key(price) && levels[price]
            == qty,
        level_at(levels, price) is None <==> !levels.contains_key(price),
        level_at(Map::empty(), price) is None,
        levels.contains_key(price) ==> quantity_or_zero(levels, price) == levels[price],
        !levels.contains_key(price) ==> quantity_or_zero(levels, price) == 0,
{
}

/// Setting a quantity changes the levels at that price alone.
pub proof fn setting_changes_one_level(levels: Map<u64, u64>, price: u64, qty: u64)
    ensures
        qty != 0 ==> set_level(levels, price, qty) == levels.insert(price, qty),
        qty == 0 ==> set_level(levels, price, qty) == levels.remove(price),
{
}

/// A tree book takes every price.
pub proof fn tree_book_takes_every_price(book: TreeBook, price: u64)
    ensures
        book.covered().contains(price),
        book.addressable().contains(price),
{
}

/// A dense book takes the prices from its base upwards whose distance from the base is an
/// index, and can carry out an update unless the array would outgrow what the machine
/// addresses.
pub proof fn dense_book_takes_prices_from_its_base(book: DenseBook, base: u64, price: u64)
    ensures
        dense_covered(base).contains(price) <==> base <= price && price - base <= usize::MAX,
        dense_addressable(base).contains(price) <==> (base <= price && price - base <= usize::MAX
            ==> price - base < isize::MAX as int / 8),
        book.covered().contains(price) <==> book.base() <= price && price - book.base()
            <= usize::MAX,
        book.addressable().contains(price) <==> (book.base() <= price && price - book.base()
            <= usize::MAX ==> price - book.base() < isize::MAX as int / 8),
{
}

/// A dense book gives back at every price from its base upwards what was last set there,
/// however far above the base, and keeps every other price as it was.
pub proof fn dense_read_gives_back_the_write(
    base: u64,
    slots: Seq<u64>,
    price: u64,
    qty: u64,
    other: u64,
)
    requires
        base <= price,
        price - base < isize::MAX as int / 8,
    ensures
        qty != 0 ==> level_at(
            dense_levels(base, dense_slots_after(base, slots, price, qty)),
            price,
        ) == Some(qty),
        qty == 0 ==> level_at(
            dense_levels(base, dense_slots_after(base, slots, price, qty)),
            price,
        ) is None,
        other != price ==> level_at(
            dense_levels(base, dense_slots_after(base, slots, price, qty)),
            other,
        ) == level_at(dense_levels(base, slots), other),
        level_at(dense_levels(base, Seq::empty()), other) is None,
{
}

/// An update below the base changes nothing of a dense book.
pub proof fn dense_book_ignores_prices_below_its_base(
    base: u64,
    slots: Seq<u64>,
    price: u64,
    qty: u64,
)
    requires
        price < base,
    ensures
        dense_slots_after(base, slots, price, qty) == slots,
        level_at(dense_levels(base, slots), price) is None,
{
}

/// Setting a slot: the array grows just as far as the slot, gaps are filled with zero,
/// and the other slots keep their quantities.
pub proof fn array_grows_to_the_slot(slots: Seq<u64>, index: int, qty: u64, other: int)
    requires
        0 <= index,
    ensures
        slots_after(slots, index, qty)[index] == qty,
        index < slots.len() ==> slots_after(slots, index, qty).len() == slots.len(),
        index >= slots.len() ==> slots_after(slots, index, qty).len() == index + 1,
        0 <= other < slots.len() && other != index ==> slots_after(slots, index, qty)[other]
            == slots[other],
        slots.len() <= other < index ==> slots_after(slots, index, qty)[other] == 0,
{
}

/// What a book holds: a tree book its levels, a dense book its base and its array, and
/// with them its levels. An update sets the level, or the slot at its distance from the
/// base.
pub proof fn books_hold_levels_and_slots(
    tree: TreeBook,
    dense: DenseBook,
    price: u64,
    qty: u64,
)
    ensures
        tree.content() == tree.levels(),
        dense.content() == (dense.base(), dense.slots()),
        dense.levels() == dense_levels(dense.base(), dense.slots()),
        qty != 0 ==> TreeBook::content_after(tree.content(), price, qty) == tree.levels().insert(
            price,
            qty,
        ),
        qty == 0 ==> TreeBook::content_after(tree.content(), price, qty) == tree.levels().remove(
            price,
        ),
        price < dense.base() ==> DenseBook::content_after(dense.content(), price, qty)
            == dense.content(),
        dense.base() <= price && price - dense.base() < isize::MAX as int / 8
            ==> DenseBook::content_after(dense.content(), price, qty) == (
            dense.base(),
            slots_after(dense.slots(), price - dense.base(), qty),
        ),
{
}

/// Seeding sets every price from 95000 to 104999 that the book takes to one more than its
/// distance from 95000, counted in thousands anew, and keeps the others.
pub proof fn seeding_counts_up_to_a_thousand(
    levels: Map<u64, u64>,
    covered: Set<u64>,
    price: u64,
)
    ensures
        95_000 <= price < 105_000 && covered.contains(price) ==> level_at(
            seeded(levels, covered),
            price,
        ) == Some((1 + (price - 95_000) % 1_000) as u64),
        !(95_000 <= price < 105_000 && covered.contains(price)) ==> level_at(
            seeded(levels, covered),
            price,
        ) == level_at(levels, price),
{
}

/// Neighbouring seeds differ by one, but for the start of another thousand.
pub proof fn seeds_count_up(price: u64)
    requires
        95_000 <= price < 105_000,
    ensures
        seed_quantity(95_000) == 1,
        1 <= seed_quantity(price) <= 1_000,
        seed_quantity((price + 1) as u64) == (if seed_quantity(price) == 1_000 {
            1int
        } else {
            seed_quantity(price) + 1
        }),
{
}

/// Seeding a book is updating it at one price after the other, from 95000 upwards.
pub proof fn seeding_updates_in_order<B: Book>(content: B::Content, price: u64)
    requires
        95_000 <= price < 105_000,
    ensures
        content_seeded_below::<B>(content, 95_000) == content,
        content_seeded_below::<B>(content, (price + 1) as nat) == B::content_after(
            content_seeded_below::<B>(content, price as nat),
            price,
            (1 + (price - 95_000) % 1_000) as u64,
        ),
        content_seeded::<B>(content) == content_seeded_below::<B>(content, 105_000),
{
}

/// A replay hands the book every update once, in order, and no lookup changes the book.
pub proof fn replay_updates_in_order<B: Book>(
    content: B::Content,
    operations: Seq<Operation>,
    price: u64,
    qty: u64,
)
    ensures
        content_replayed::<B>(content, Seq::empty()) == content,
        content_replayed::<B>(content, operations.push(Operation::Lookup { price }))
            == content_replayed::<B>(content, operations),
        content_replayed::<B>(content, operations.push(Operation::Update { price, qty }))
            == B::content_after(content_replayed::<B>(content, operations), price, qty),
{
    assert(operations.push(Operation::Lookup { price }).drop_last() =~= operations);
    assert(operations.push(Operation::Update { price, qty }).drop_last() =~= operations);
}

/// A replay leaves the levels as they were where it only looks up, or updates prices that
/// the book does not take, and otherwise changes one level after the other.
pub proof fn replay_changes_levels_in_order(
    levels: Map<u64, u64>,
    covered: Set<u64>,
    operations: Seq<Operation>,
    price: u64,
    qty: u64,
)
    ensures
        levels_after(levels, covered, Seq::empty()) == levels,
        levels_after(levels, covered, operations.push(Operation::Lookup { price }))
            == levels_after(levels, covered, operations),
        levels_after(levels, covered, operations.push(Operation::Update { price, qty })) == (
        if !covered.contains(price) {
            levels_after(levels, covered, operations)
        } else if qty == 0 {
            levels_after(levels, covered, operations).remove(price)
        } else {
            levels_after(levels, covered, operations).insert(price, qty)
        }),
{
    assert(operations.push(Operation::Lookup { price }).drop_last() =~= operations);
    assert(operations.push(Operation::Update { price, qty }).drop_last() =~= operations);
}

/// A list of operations asks of a book to address the price of every update in it, and
/// nothing else.
pub proof fn every_update_must_be_addressable(
    addressable: Set<u64>,
    operations: Seq<Operation>,
    price: u64,
    qty: u64,
)
    ensures
        updates_within(addressable, Seq::empty()),
        updates_within(addressable, operations.push(Operation::Lookup { price }))
            <==> updates_within(addressable, operations),
        updates_within(addressable, operations.push(Operation::Update { price, qty }))
            <==> updates_within(addressable, operations) && addressable.contains(price),
{
    let looked = operations.push(Operation::Lookup { price });
    let updated = operations.push(Operation::Update { price, qty });
    let last = operations.len() as int;
    assert(looked[last] == Operation::Lookup { price });
    assert(updated[last] == Operation::Update { price, qty });
    assert forall|i: int| 0 <= i < operations.len() implies looked[i] == #[trigger] operations[i]
        && updated[i] == operations[i] by {}
    if updates_within(addressable, looked) {
        assert forall|i: int| 0 <= i < operations.len() implies (
        #[trigger] operations[i] matches Operation::Update { price, .. } ==> addressable.contains(
            price,
        )) by {
            assert(looked[i] == operations[i]);
        }
    }
    if updates_within(addressable, updated) {
        assert forall|i: int| 0 <= i < operations.len() implies (
        #[trigger] operations[i] matches Operation::Update { price, .. } ==> addressable.contains(
            price,
        )) by {
            assert(updated[i] == operations[i]);
        }
    }
}

/// Nothing replayed adds up to nothing, and an update adds nothing.
pub proof fn updates_add_nothing(
    levels: Map<u64, u64>,
    covered: Set<u64>,
    operations: Seq<Operation>,
    price: u64,
    qty: u64,
)
    ensures
        lookup_total(levels, covered, Seq::empty()) == 0,
        lookup_total(levels, covered, operations.push(Operation::Update { price, qty }))
            == lookup_total(levels, covered, operations),
        checksum(levels, covered, Seq::empty()) == 0,
        checksum(levels, covered, operations.push(Operation::Update { price, qty })) == checksum(
            levels,
            covered,
            operations,
        ),
{
    assert(operations.push(Operation::Update { price, qty }).drop_last() =~= operations);
}

/// A lookup adds the quantity that the last update at its price set, where the book takes
/// that price.
pub proof fn lookup_adds_the_last_update(
    levels: Map<u64, u64>,
    covered: Set<u64>,
    operations: Seq<Operation>,
    last: int,
    price: u64,
    qty: u64,
)
    requires
        covered.contains(price),
        0 <= last < operations.len(),
        operations[last] == (Operation::Update { price, qty }),
        forall|i: int|
            last < i < operations.len() ==> !(#[trigger] operations[i] matches Operation::Update {
                price: updated,
                ..
            } && updated == price),
    ensures
        lookup_total(levels, covered, operations.push(Operation::Lookup { price }))
            == lookup_total(levels, covered, operations) + qty,
        checksum(levels, covered, operations.push(Operation::Lookup { price })) == (checksum(
            levels,
            covered,
            operations,
        ) + qty) % 0x1_0000_0000_0000_0000,
{
    assert(operations.push(Operation::Lookup { price }).drop_last() =~= operations);
    last_update_wins(levels, covered, operations, last, price, qty);
    let total = lookup_total(levels, covered, operations);
    lemma_add_mod_noop_right(qty as int, total as int, 0x1_0000_0000_0000_0000);
}

/// A lookup adds what the book held from the start, where no operation updated its price
/// or the book does not take it.
pub proof fn lookup_adds_what_was_there(
    levels: Map<u64, u64>,
    covered: Set<u64>,
    operations: Seq<Operation>,
    price: u64,
    found: u64,
)
    requires
        !covered.contains(price) || forall|i: int|
            0 <= i < operations.len() ==> !(#[trigger] operations[i] matches Operation::Update {
                price: updated,
                ..
            } && updated == price),
        if levels.contains_key(price) {
            found == levels[price]
        } else {
            found == 0
        },
    ensures
        lookup_total(levels, covered, operations.push(Operation::Lookup { price }))
            == lookup_total(levels, covered, operations) + found,
        checksum(levels, covered, operations.push(Operation::Lookup { price })) == (checksum(
            levels,
            covered,
            operations,
        ) + found) % 0x1_0000_0000_0000_0000,
{
    assert(operations.push(Operation::Lookup { price }).drop_last() =~= operations);
    untouched_price_keeps_its_level(levels, covered, operations, price);
    let total = lookup_total(levels, covered, operations);
    lemma_add_mod_noop_right(found as int, total as int, 0x1_0000_0000_0000_0000);
}

/// A run starts at nothing, and its updates add nothing.
pub proof fn run_updates_add_nothing(operations: Seq<Operation>, price: u64, qty: u64)
    ensures
        tree_checksum(Seq::empty()) == 0,
        dense_checksum(Seq::empty()) == 0,
        tree_checksum(operations.push(Operation::Update { price, qty })) == tree_checksum(
            operations,
        ),
        dense_checksum(operations.push(Operation::Update { price, qty })) == dense_checksum(
            operations,
        ),
{
    let full = Set::<u64>::full();
    let covered = dense_covered(MIN_PRICE);
    updates_add_nothing(seeded(Map::empty(), full), full, operations, price, qty);
    updates_add_nothing(seeded(Map::empty(), covered), covered, operations, price, qty);
}

/// A lookup of a run adds the quantity that the last update at its price set: on the tree
/// book at every price, on the dense book at every price from 95000 upwards that an array
/// can reach.
pub proof fn run_lookup_adds_the_last_update(
    operations: Seq<Operation>,
    last: int,
    price: u64,
    qty: u64,
)
    requires
        0 <= last < operations.len(),
        operations[last] == (Operation::Update { price, qty }),
        forall|i: int|
            last < i < operations.len() ==> !(#[trigger] operations[i] matches Operation::Update {
                price: updated,
                ..
            } && updated == price),
    ensures
        tree_checksum(operations.push(Operation::Lookup { price })) == (tree_checksum(operations)
            + qty) % 0x1_0000_0000_0000_0000,
        95_000 <= price && price - 95_000 < isize::MAX as int / 8 ==> dense_checksum(
            operations.push(Operation::Lookup { price }),
        ) == (dense_checksum(operations) + qty) % 0x1_0000_0000_0000_0000,
{
    let full = Set::<u64>::full();
    let covered = dense_covered(MIN_PRICE);
    lookup_adds_the_last_update(seeded(Map::empty(), full), full, operations, last, price, qty);
    if covered.contains(price) {
        lookup_adds_the_last_update(
            seeded(Map::empty(), covered),
            covered,
            operations,
            last,
            price,
            qty,
        );
    }
}

/// A lookup of a run at a price that no operation updated adds the seed there: of the
/// prices from 95000 to 104999 one more than the distance from 95000, counted in thousands
/// anew, and nothing at the others.
pub proof fn run_lookup_adds_the_seed(operations: Seq<Operation>, price: u64, seed: u64)
    requires
        forall|i: int|
            0 <= i < operations.len() ==> !(#[trigger] operations[i] matches Operation::Update {
                price: updated,
                ..
            } && updated == price),
        if 95_000 <= price < 105_000 {
            seed == 1 + (price - 95_000) % 1_000
        } else {
            seed == 0
        },
    ensures
        tree_checksum(operations.push(Operation::Lookup { price })) == (tree_checksum(operations)
            + seed) % 0x1_0000_0000_0000_0000,
        dense_checksum(operations.push(Operation::Lookup { price })) == (dense_checksum(operations)
            + seed) % 0x1_0000_0000_0000_0000,
{
    let full = Set::<u64>::full();
    let covered = dense_covered(MIN_PRICE);
    lookup_adds_what_was_there(seeded(Map::empty(), full), full, operations, price, seed);
    lookup_adds_what_was_there(seeded(Map::empty(), covered), covered, operations, price, seed);
}

/// A lookup below 95000 adds nothing to a run on the dense book.
pub proof fn dense_run_finds_nothing_below_its_base(operations: Seq<Operation>, price: u64)
    requires
        price < 95_000,
    ensures
        dense_checksum(operations.push(Operation::Lookup { price })) == dense_checksum(operations),
{
    let covered = dense_covered(MIN_PRICE);
    lookup_adds_what_was_there(seeded(Map::empty(), covered), covered, operations, price, 0);
}

/// The two books give one checksum for all operations whose updates are at prices from
/// 95000 upwards that an array can reach.
pub proof fn runs_agree_from_the_lowest_price(operations: Seq<Operation>)
    requires
        forall|i: int|
            0 <= i < operations.len() ==> (#[trigger] operations[i] matches Operation::Update {
                price,
                ..
            } ==> 95_000 <= price && price - 95_000 < isize::MAX as int / 8),
    ensures
        tree_checksum(operations) == dense_checksum(operations),
{
    assert(updates_within(dense_covered(MIN_PRICE), operations));
    runs_agree_on_covered_updates(operations);
}

} // verus!
