//! The deterministic workload that both books replay.
use vstd::prelude::*;

verus! {

/// The lowest price of the workload.
pub const MIN_PRICE: u64 = 95_000;

/// The price above the highest one of the workload.
pub const MAX_PRICE: u64 = 105_000;

/// How many prices the workload draws from.
pub const PRICE_COUNT: u64 = MAX_PRICE - MIN_PRICE;

/// How many operations the workload has.
pub const OPERATION_COUNT: usize = 1_000_000;

/// The state from which the workload's generator starts.
pub const WORKLOAD_SEED: u64 = 0x4d59_5df4_d0f3_3173;

/// The largest quantity that an update of the workload sets.
pub const MAX_QUANTITY: u64 = 10_000;

/// One request to a book.
#[derive(Clone, Copy, Debug, PartialEq, Eq, Structural)]
pub enum Operation {
    /// Read the quantity at `price`.
    Lookup { price: u64 },
    /// Set the quantity at `price`.
    Update { price: u64, qty: u64 },
}

/// Small deterministic generator so the workload has no external dependency.
pub struct XorShift64(pub u64);

/// The state that follows `state`: three rounds of shift and exclusive or.
pub open spec fn scramble(state: u64) -> u64 {
    let first = state ^ (state << 13);
    let second = first ^ (first >> 7);
    second ^ (second << 17)
}

/// The state after `count` steps from `seed`.
pub open spec fn draw(seed: u64, count: nat) -> u64
    decreases count,
{
    if count == 0 {
        seed
    } else {
        scramble(draw(seed, (count - 1) as nat))
    }
}

impl XorShift64 {
    /// Steps the generator and returns its new state.
    pub fn next(&mut self) -> (drawn: u64)
        ensures
            drawn == scramble(old(self).0),
            drawn == ({
                let first = old(self).0 ^ (old(self).0 << 13);
                let second = first ^ (first >> 7);
                second ^ (second << 17)
            }),
            final(self).0 == drawn,
    {
        let mut value: u64 = self.0;
        value ^= value << 13;
        value ^= value >> 7;
        value ^= value << 17;
        self.0 = value;
        value
    }
}

/// Whether the workload's operation at `index` is a lookup: the first seven of every
/// ten are.
pub open spec fn is_lookup_turn(index: int) -> bool {
    index % 10 < 7
}

/// How many of the first `count` operations of the workload are updates.
pub open spec fn updates_before(count: int) -> int {
    3 * (count / 10) + if is_lookup_turn(count) {
        0
    } else {
        count % 10 - 7
    }
}

/// The workload's operation at `index`. A lookup takes one draw, for its price; an
/// update takes two, for its price and then its quantity.
pub open spec fn operation_at(index: int) -> Operation {
    let drawn = (index + updates_before(index)) as nat;
    let price = (MIN_PRICE + draw(WORKLOAD_SEED, drawn + 1) % PRICE_COUNT) as u64;
    if is_lookup_turn(index) {
        Operation::Lookup { price }
    } else {
        Operation::Update {
            price,
            qty: (1 + draw(WORKLOAD_SEED, drawn + 2) % MAX_QUANTITY) as u64,
        }
    }
}

/// The whole workload.
pub open spec fn workload() -> Seq<Operation> {
    Seq::new(OPERATION_COUNT as nat, |index: int| operation_at(index))
}

proof fn updates_before_step(count: int)
    requires
        0 <= count,
    ensures
        updates_before(count + 1) == updates_before(count) + if is_lookup_turn(count) {
            0int
        } else {
            1
        },
        updates_before(count) >= 0,
{
}

/// Generates the workload.
pub fn generate_workload() -> (operations: Vec<Operation>)
    ensures
        operations@ == workload(),
{
    let mut rng = XorShift64(WORKLOAD_SEED);
    let mut operations: Vec<Operation> = Vec::with_capacity(OPERATION_COUNT);

    for index in 0..OPERATION_COUNT
        invariant
            operations@ == Seq::new(index as nat, |i: int| operation_at(i)),
            rng.0 == draw(WORKLOAD_SEED, (index + updates_before(index as int)) as nat),
    {
        proof {
            updates_before_step(index as int);
        }
        let ghost drawn = (index + updates_before(index as int)) as nat;
        let price: u64 = MIN_PRICE + rng.next() % PRICE_COUNT;
        assert(rng.0 == draw(WORKLOAD_SEED, drawn + 1));

        // Exactly seven lookups and three updates in every ten operations.
        if index % 10 < 7 {
            operations.push(Operation::Lookup { price });
        } else {
            let qty: u64 = 1 + rng.next() % MAX_QUANTITY;
            assert(rng.0 == draw(WORKLOAD_SEED, drawn + 2));
            operations.push(Operation::Update { price, qty });
        }
        assert(operations@ =~= Seq::new((index + 1) as nat, |i: int| operation_at(i)));
    }

    operations
}

/// How many of `operations` are lookups.
pub open spec fn count_lookups(operations: Seq<Operation>) -> nat
    decreases operations.len(),
{
    if operations.len() == 0 {
        0
    } else {
        count_lookups(operations.drop_last()) + if operations.last() is Lookup {
            1nat
        } else {
            0
        }
    }
}

/// How many of `operations` are updates.
pub open spec fn count_updates(operations: Seq<Operation>) -> nat
    decreases operations.len(),
{
    if operations.len() == 0 {
        0
    } else {
        count_updates(operations.drop_last()) + if operations.last() is Update {
            1nat
        } else {
            0
        }
    }
}

proof fn counts_of_window(start: int, length: int)
    requires
        0 <= start,
        0 <= length,
        start + length <= OPERATION_COUNT,
    ensures
        count_updates(workload().subrange(start, start + length)) == updates_before(start + length)
            - updates_before(start),
        count_lookups(workload().subrange(start, start + length)) == length - (updates_before(
            start + length,
        ) - updates_before(start)),
    decreases length,
{
    let window = workload().subrange(start, start + length);
    if length > 0 {
        counts_of_window(start, length - 1);
        updates_before_step(start + length - 1);
        assert(window.drop_last() =~= workload().subrange(start, start + length - 1));
        assert(window.last() == operation_at(start + length - 1));
    }
}

/// Every ten consecutive operations of the workload, wherever they start, are seven
/// lookups and three updates.
pub proof fn seven_lookups_in_every_ten(start: int)
    requires
        0 <= start <= OPERATION_COUNT - 10,
    ensures
        count_lookups(workload().subrange(start, start + 10)) == 7,
        count_updates(workload().subrange(start, start + 10)) == 3,
{
    counts_of_window(start, 10);
    assert(updates_before(start + 10) == updates_before(start) + 3);
}

/// Seventy percent of the workload are lookups and thirty percent are updates.
pub proof fn workload_mix()
    ensures
        workload().len() == OPERATION_COUNT,
        10 * count_lookups(workload()) == 7 * workload().len(),
        10 * count_updates(workload()) == 3 * workload().len(),
{
    counts_of_window(0, OPERATION_COUNT as int);
    assert(workload().subrange(0, OPERATION_COUNT as int) =~= workload());
}

/// The price that `operation` reads or sets.
pub open spec fn price_of(operation: Operation) -> u64 {
    match operation {
        Operation::Lookup { price } => price,
        Operation::Update { price, .. } => price,
    }
}

/// Every price of the workload lies in `[MIN_PRICE, MAX_PRICE)`, and every update sets a
/// quantity from one to `MAX_QUANTITY`: the workload removes no level.
pub proof fn workload_ranges(index: int)
    requires
        0 <= index < workload().len(),
    ensures
        MIN_PRICE <= price_of(workload()[index]) < MAX_PRICE,
        workload()[index] matches Operation::Update { qty, .. } ==> 1 <= qty <= MAX_QUANTITY,
{
}

/// Different states step to different states.
pub proof fn scramble_is_injective(left: u64, right: u64)
    requires
        scramble(left) == scramble(right),
    ensures
        left == right,
{
    let (a, b) = (left ^ (left << 13), right ^ (right << 13));
    let (c, d) = (a ^ (a >> 7), b ^ (b >> 7));
    assert(c ^ (c << 17) == d ^ (d << 17) ==> c == d) by (bit_vector);
    assert(a ^ (a >> 7) == b ^ (b >> 7) ==> a == b) by (bit_vector);
    assert(left ^ (left << 13) == right ^ (right << 13) ==> left == right) by (bit_vector);
}

/// A generator with a seed other than zero never draws zero.
pub proof fn never_draws_zero(seed: u64, count: nat)
    requires
        seed != 0,
    ensures
        draw(seed, count) != 0,
    decreases count,
{
    if count > 0 {
        never_draws_zero(seed, (count - 1) as nat);
        assert(0u64 ^ (0u64 << 13) == 0u64 && 0u64 ^ (0u64 >> 7) == 0u64 && 0u64 ^ (0u64 << 17)
            == 0u64) by (bit_vector);
        assert(scramble(0) == 0);
        if scramble(draw(seed, (count - 1) as nat)) == 0 {
            scramble_is_injective(draw(seed, (count - 1) as nat), 0);
        }
    }
}

/// Stepping is linear: the step from an exclusive or of two states is that of their steps.
pub proof fn scramble_is_linear(left: u64, right: u64)
    ensures
        scramble(left ^ right) == scramble(left) ^ scramble(right),
        scramble(0) == 0,
{
    assert(scramble(left ^ right) == scramble(left) ^ scramble(right)) by (bit_vector);
    assert(scramble(0) == 0) by (bit_vector);
}

/// A step is three rounds, each of which changes a state by an exclusive or with a shifted
/// copy of it: by 13 places up, 7 down and 17 up, what is shifted out being lost.
pub proof fn scramble_shifts_three_times(state: u64, first: u64, second: u64)
    requires
        first ^ state == state * 8_192 % 0x1_0000_0000_0000_0000,
        second ^ first == first / 128,
    ensures
        scramble(state) ^ second == second * 131_072 % 0x1_0000_0000_0000_0000,
{
    assert(state << 13 == state * 8_192 % 0x1_0000_0000_0000_0000) by (bit_vector);
    assert(first >> 7 == first / 128) by (bit_vector);
    assert(second << 17 == second * 131_072 % 0x1_0000_0000_0000_0000) by (bit_vector);
    assert(first ^ state == state << 13 ==> first == state ^ (state << 13)) by (bit_vector);
    assert(second ^ first == first >> 7 ==> second == first ^ (first >> 7)) by (bit_vector);
    assert((second ^ (second << 17)) ^ second == second << 17) by (bit_vector);
}

/// Drawing some and then others is drawing all of them.
pub proof fn draws_compose(seed: u64, some: nat, others: nat)
    ensures
        draw(seed, 0) == seed,
        draw(seed, 1) == scramble(seed),
        draw(draw(seed, some), others) == draw(seed, some + others),
    decreases others,
{
    reveal_with_fuel(draw, 2);
    if others > 0 {
        draws_compose(seed, some, (others - 1) as nat);
    }
}

/// The operations of the workload, ten by ten: thirteen draws make seven lookups and three
/// updates. A lookup takes the next draw for its price; an update takes the next two, for
/// its price and its quantity.
pub proof fn workload_ten_by_ten(ten: int, place: int)
    requires
        0 <= ten < 100_000,
        0 <= place < 10,
    ensures
        workload().len() == 1_000_000,
        place < 7 ==> workload()[10 * ten + place] == (Operation::Lookup {
            price: (95_000 + draw(0x4d59_5df4_d0f3_3173, (13 * ten + place + 1) as nat) % 10_000)
                as u64,
        }),
        place >= 7 ==> workload()[10 * ten + place] == (Operation::Update {
            price: (95_000 + draw(
                0x4d59_5df4_d0f3_3173,
                (13 * ten + 7 + 2 * (place - 7) + 1) as nat,
            ) % 10_000) as u64,
            qty: (1 + draw(
                0x4d59_5df4_d0f3_3173,
                (13 * ten + 7 + 2 * (place - 7) + 2) as nat,
            ) % 10_000) as u64,
        }),
{
    let index = 10 * ten + place;
    assert(index / 10 == ten && index % 10 == place);
    assert(workload()[index] == operation_at(index));
}

/// The counts of a list grow with its lookups and updates.
pub proof fn counts_grow_with_the_list(operations: Seq<Operation>, price: u64, qty: u64)
    ensures
        count_lookups(Seq::empty()) == 0,
        count_updates(Seq::empty()) == 0,
        count_lookups(operations.push(Operation::Lookup { price })) == count_lookups(operations)
            + 1,
        count_updates(operations.push(Operation::Lookup { price })) == count_updates(operations),
        count_lookups(operations.push(Operation::Update { price, qty })) == count_lookups(
            operations,
        ),
        count_updates(operations.push(Operation::Update { price, qty })) == count_updates(
            operations,
        ) + 1,
{
    assert(operations.push(Operation::Lookup { price }).drop_last() =~= operations);
    assert(operations.push(Operation::Update { price, qty }).drop_last() =~= operations);
}

} // verus!
