//! What the books promise: reads give back the last write, and both books answer a
//! workload alike.
use vstd::prelude::*;

verus! {

use crate::dense_book::book::{
    dense_addressable,
    dense_covered,
    dense_levels,
    dense_slots_after,
    level_at,
    set_level,
    DenseBook,
};
use crate::dense_book::replay::{
    content_seeded,
    content_seeded_below,
    dense_checksum,
    levels_after,
    lookup_total,
    quantity_or_zero,
    seed_quantity,
    seeded,
    tree_checksum,
    updates_within,
};
use crate::dense_book::workload::{
    workload,
    workload_ranges,
    Operation,
    MAX_PRICE,
    MIN_PRICE,
    PRICE_COUNT,
};

/// Setting a quantity other than zero at a price is read back there, setting zero leaves
/// no level there, and neither touches another price.
pub proof fn read_gives_back_the_write(
    levels: Map<u64, u64>,
    price: u64,
    qty: u64,
    other: u64,
)
    ensures
        qty != 0 ==> level_at(set_level(levels, price, qty), price) == Some(qty),
        qty == 0 ==> level_at(set_level(levels, price, qty), price) is None,
        other != price ==> level_at(set_level(levels, price, qty), other) == level_at(
            levels,
            other,
        ),
{
}

/// Of two updates at one price only the later one counts.
pub proof fn later_update_overwrites(levels: Map<u64, u64>, price: u64, earlier: u64, later: u64)
    ensures
        set_level(set_level(levels, price, earlier), price, later) == set_level(
            levels,
            price,
            later,
        ),
{
    assert(set_level(set_level(levels, price, earlier), price, later) =~= set_level(
        levels,
        price,
        later,
    ));
}

/// Updates at different prices may change places.
pub proof fn updates_at_different_prices_commute(
    levels: Map<u64, u64>,
    left: u64,
    left_qty: u64,
    right: u64,
    right_qty: u64,
)
    requires
        left != right,
    ensures
        set_level(set_level(levels, left, left_qty), right, right_qty) == set_level(
            set_level(levels, right, right_qty),
            left,
            left_qty,
        ),
{
    assert(set_level(set_level(levels, left, left_qty), right, right_qty) =~= set_level(
        set_level(levels, right, right_qty),
        left,
        left_qty,
    ));
}

/// Of two updates of a dense book at one price only the later one counts, in the whole
/// array.
pub proof fn later_dense_update_overwrites(
    base: u64,
    slots: Seq<u64>,
    price: u64,
    earlier: u64,
    later: u64,
)
    ensures
        dense_slots_after(base, dense_slots_after(base, slots, price, earlier), price, later)
            == dense_slots_after(base, slots, price, later),
{
    assert(dense_slots_after(base, dense_slots_after(base, slots, price, earlier), price, later)
        =~= dense_slots_after(base, slots, price, later));
}

/// Updates of a dense book at different prices may change places: they leave one array.
pub proof fn dense_updates_at_different_prices_commute(
    base: u64,
    slots: Seq<u64>,
    left: u64,
    left_qty: u64,
    right: u64,
    right_qty: u64,
)
    requires
        left != right,
    ensures
        dense_slots_after(base, dense_slots_after(base, slots, left, left_qty), right, right_qty)
            == dense_slots_after(
            base,
            dense_slots_after(base, slots, right, right_qty),
            left,
            left_qty,
        ),
{
    assert(dense_slots_after(
        base,
        dense_slots_after(base, slots, left, left_qty),
        right,
        right_qty,
    ) =~= dense_slots_after(
        base,
        dense_slots_after(base, slots, right, right_qty),
        left,
        left_qty,
    ));
}

/// An update never shrinks the array of a dense book.
pub proof fn dense_update_never_shrinks(base: u64, slots: Seq<u64>, price: u64, qty: u64)
    ensures
        dense_slots_after(base, slots, price, qty).len() >= slots.len(),
{
}

/// What an update does to the array of a dense book, it does to the levels that the
/// array stands for.
pub proof fn dense_update_sets_the_level(base: u64, slots: Seq<u64>, price: u64, qty: u64)
    requires
        dense_covered(base).contains(price),
    ensures
        dense_levels(base, dense_slots_after(base, slots, price, qty)) == set_level(
            dense_levels(base, slots),
            price,
            qty,
        ),
{
    assert(dense_levels(base, dense_slots_after(base, slots, price, qty)) =~= set_level(
        dense_levels(base, slots),
        price,
        qty,
    ));
}

/// Whether an operation updates `price`.
pub open spec fn updates_price(operation: Operation, price: u64) -> bool {
    operation matches Operation::Update { price: updated, .. } && updated == price
}

/// After a replay a price holds what it held before, where no operation updated it or
/// the book does not take it.
pub proof fn untouched_price_keeps_its_level(
    levels: Map<u64, u64>,
    covered: Set<u64>,
    operations: Seq<Operation>,
    price: u64,
)
    requires
        !covered.contains(price) || forall|i: int|
            0 <= i < operations.len() ==> !updates_price(#[trigger] operations[i], price),
    ensures
        level_at(levels_after(levels, covered, operations), price) == level_at(levels, price),
    decreases operations.len(),
{
    if operations.len() > 0 {
        untouched_price_keeps_its_level(levels, covered, operations.drop_last(), price);
        assert(operations.last() == operations[operations.len() - 1]);
    }
}

/// After a replay a price that the book takes holds what the last update there set.
pub proof fn last_update_wins(
    levels: Map<u64, u64>,
    covered: Set<u64>,
    operations: Seq<Operation>,
    last: int,
    price: u64,
    qty: u64,
)
    requires
        covered.contains(price),
        0 <= last < operations.len(),
        operations[last] == (Operation::Update { price, qty }),
        forall|i: int|
            last < i < operations.len() ==> !updates_price(#[trigger] operations[i], price),
    ensures
        level_at(levels_after(levels, covered, operations), price) == (if qty == 0 {
            None
        } else {
            Some(qty)
        }),
    decreases operations.len(),
{
    if last < operations.len() - 1 {
        last_update_wins(levels, covered, operations.drop_last(), last, price, qty);
        assert(operations.last() == operations[operations.len() - 1]);
    }
}

/// No replay leaves a level with a zero quantity, if there was none before.
pub proof fn replay_leaves_no_empty_level(
    levels: Map<u64, u64>,
    covered: Set<u64>,
    operations: Seq<Operation>,
)
    requires
        forall|price: u64| #[trigger] levels.contains_key(price) ==> levels[price] != 0,
    ensures
        forall|price: u64| #[trigger]
            levels_after(levels, covered, operations).contains_key(price) ==> levels_after(
                levels,
                covered,
                operations,
            )[price] != 0,
    decreases operations.len(),
{
    if operations.len() > 0 {
        replay_leaves_no_empty_level(levels, covered, operations.drop_last());
        let before = levels_after(levels, covered, operations.drop_last());
        let after = levels_after(levels, covered, operations);
        assert forall|price: u64| #[trigger] after.contains_key(price) implies after[price]
            != 0 by {
            assert(before.contains_key(price) ==> before[price] != 0);
        }
    }
}

/// Replaying a list is replaying its first part and then its second, from the levels that
/// the first left.
pub proof fn replays_compose(
    levels: Map<u64, u64>,
    covered: Set<u64>,
    first: Seq<Operation>,
    second: Seq<Operation>,
)
    ensures
        levels_after(levels, covered, first + second) == levels_after(
            levels_after(levels, covered, first),
            covered,
            second,
        ),
        lookup_total(levels, covered, first + second) == lookup_total(levels, covered, first)
            + lookup_total(levels_after(levels, covered, first), covered, second),
    decreases second.len(),
{
    let whole = first + second;
    if second.len() == 0 {
        assert(whole =~= first);
    } else {
        replays_compose(levels, covered, first, second.drop_last());
        assert(whole.drop_last() =~= first + second.drop_last());
        assert(whole.last() == second.last());
    }
}

/// The sum of what a book that takes every price finds at the lookups of prices that are
/// not `covered`.
pub open spec fn stray_total(
    levels: Map<u64, u64>,
    covered: Set<u64>,
    operations: Seq<Operation>,
) -> nat
    decreases operations.len(),
{
    if operations.len() == 0 {
        0
    } else {
        let earlier = operations.drop_last();
        stray_total(levels, covered, earlier) + match operations.last() {
            Operation::Lookup { price } if !covered.contains(price) => quantity_or_zero(
                levels_after(levels, Set::full(), earlier),
                price,
            ),
            _ => 0,
        }
    }
}

/// A book that takes the `covered` prices only ends with the levels at those prices that
/// a book taking every price ends with. Their totals differ by what the second finds at
/// the prices that the first does not take.
pub proof fn covering_book_follows_full_book(
    levels: Map<u64, u64>,
    covered: Set<u64>,
    operations: Seq<Operation>,
)
    ensures
        levels_after(levels.restrict(covered), covered, operations) == levels_after(
            levels,
            Set::full(),
            operations,
        ).restrict(covered),
        lookup_total(levels, Set::full(), operations) == lookup_total(
            levels.restrict(covered),
            covered,
            operations,
        ) + stray_total(levels, covered, operations),
    decreases operations.len(),
{
    if operations.len() > 0 {
        covering_book_follows_full_book(levels, covered, operations.drop_last());
    }
    assert(levels_after(levels.restrict(covered), covered, operations) =~= levels_after(
        levels,
        Set::full(),
        operations,
    ).restrict(covered));
}

/// The sum of what a seeded tree book finds at the lookups of prices that the dense book
/// does not take.
pub open spec fn seeded_stray_total(operations: Seq<Operation>) -> nat {
    stray_total(seeded(Map::empty(), Set::full()), dense_covered(MIN_PRICE), operations)
}

/// Seeding fills an empty tree book and an empty dense book on `MIN_PRICE` alike.
pub proof fn seeding_fills_both_books_alike()
    ensures
        seeded(Map::empty(), Set::full()) == seeded(Map::empty(), dense_covered(MIN_PRICE)),
{
    assert(seeded(Map::empty(), Set::full()) =~= seeded(Map::empty(), dense_covered(MIN_PRICE)));
}

/// The array of a new dense book on `MIN_PRICE`, after seeding: one slot for every price
/// of the workload, with its seed quantity, and no other.
pub proof fn seeding_fills_the_dense_array()
    ensures
        content_seeded::<DenseBook>((MIN_PRICE, Seq::empty())) == (
            MIN_PRICE,
            Seq::new(PRICE_COUNT as nat, |i: int| seed_quantity((MIN_PRICE + i) as u64)),
        ),
{
    dense_array_seeded_below(MAX_PRICE as nat);
}

proof fn dense_array_seeded_below(limit: nat)
    requires
        MIN_PRICE <= limit <= MAX_PRICE,
    ensures
        content_seeded_below::<DenseBook>((MIN_PRICE, Seq::empty()), limit) == (
            MIN_PRICE,
            Seq::new((limit - MIN_PRICE) as nat, |i: int| seed_quantity((MIN_PRICE + i) as u64)),
        ),
    decreases limit,
{
    let seeded_array = content_seeded_below::<DenseBook>((MIN_PRICE, Seq::empty()), limit).1;
    if limit > MIN_PRICE {
        dense_array_seeded_below((limit - 1) as nat);
    }
    assert(seeded_array =~= Seq::new(
        (limit - MIN_PRICE) as nat,
        |i: int| seed_quantity((MIN_PRICE + i) as u64),
    ));
}

/// The two books give one checksum exactly where what the tree book finds at prices that
/// the dense book does not take adds up to nothing.
pub proof fn runs_agree_without_strays(operations: Seq<Operation>)
    ensures
        tree_checksum(operations) == dense_checksum(operations) <==> seeded_stray_total(operations)
            % 0x1_0000_0000_0000_0000 == 0,
{
    let covered = dense_covered(MIN_PRICE);
    let full = seeded(Map::empty(), Set::full());
    covering_book_follows_full_book(full, covered, operations);
    assert(full.restrict(covered) =~= seeded(Map::empty(), covered));
}

/// Where every update is at a price that the dense book takes, the two books give one
/// checksum.
pub proof fn runs_agree_on_covered_updates(operations: Seq<Operation>)
    requires
        updates_within(dense_covered(MIN_PRICE), operations),
    ensures
        tree_checksum(operations) == dense_checksum(operations),
{
    no_strays(operations);
    runs_agree_without_strays(operations);
}

proof fn no_strays(operations: Seq<Operation>)
    requires
        updates_within(dense_covered(MIN_PRICE), operations),
    ensures
        seeded_stray_total(operations) == 0,
    decreases operations.len(),
{
    if operations.len() > 0 {
        let earlier = operations.drop_last();
        let levels = seeded(Map::empty(), Set::full());
        let covered = dense_covered(MIN_PRICE);
        assert forall|i: int| 0 <= i < earlier.len() implies (
        #[trigger] earlier[i] matches Operation::Update { price, .. } ==> covered.contains(
            price,
        )) by {
            assert(earlier[i] == operations[i]);
        }
        no_strays(earlier);
        if let Operation::Lookup { price } = operations.last() {
            if !covered.contains(price) {
                untouched_price_keeps_its_level(levels, Set::full(), earlier, price);
            }
        }
    }
}

/// The dense book can carry out every update of the workload, and the two books give one
/// checksum for it.
pub proof fn runs_agree_on_the_workload()
    ensures
        updates_within(dense_addressable(MIN_PRICE), workload()),
        tree_checksum(workload()) == dense_checksum(workload()),
{
    assert forall|i: int| 0 <= i < workload().len() implies (
    #[trigger] workload()[i] matches Operation::Update { price, .. } ==> dense_covered(
        MIN_PRICE,
    ).contains(price) && dense_addressable(MIN_PRICE).contains(price)) by {
        workload_ranges(i);
    }
    runs_agree_on_covered_updates(workload());
}

} // verus!
