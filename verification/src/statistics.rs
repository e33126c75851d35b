//! Order statistics of measured times.
use vstd::prelude::*;

verus! {

use vstd::multiset::Multiset;
use vstd::seq_lib::{
    group_to_multiset_ensures,
    to_multiset_build,
    to_multiset_insert,
    to_multiset_len,
};

/// The middle of an ascending list: one value where their number is odd, the two around
/// the middle where it is even.
#[derive(Clone, Copy, Debug, PartialEq, Eq, Structural)]
pub enum Middle {
    One(u128),
    Two(u128, u128),
}

/// The least, the middle and the greatest of some values.
#[derive(Clone, Copy, Debug, PartialEq, Eq, Structural)]
pub struct Summary {
    pub minimum: u128,
    pub median: Middle,
    pub maximum: u128,
}

/// Whether no value is less than one before it.
pub open spec fn is_ascending(values: Seq<u128>) -> bool {
    forall|i: int, j: int| 0 <= i <= j < values.len() ==> values[i] <= values[j]
}

/// The same values in ascending order.
pub open spec fn ascending(values: Seq<u128>) -> Seq<u128> {
    values.sort_by(|left: u128, right: u128| left <= right)
}

/// The middle of an ascending list.
pub open spec fn middle_of(values: Seq<u128>) -> Middle {
    let half = values.len() as int / 2;
    if values.len() % 2 == 0 {
        Middle::Two(values[half - 1], values[half])
    } else {
        Middle::One(values[half])
    }
}

/// The median of some values.
pub open spec fn median_of(values: Seq<u128>) -> Middle {
    middle_of(ascending(values))
}

/// `ascending` reorders the values, ascending.
pub proof fn ascending_sorts(values: Seq<u128>)
    ensures
        is_ascending(ascending(values)),
        ascending(values).to_multiset() == values.to_multiset(),
        ascending(values).len() == values.len(),
{
    broadcast use group_to_multiset_ensures;

    let leq = |left: u128, right: u128| left <= right;
    values.lemma_sort_by_ensures(leq);
    to_multiset_len(values);
    to_multiset_len(ascending(values));
    assert forall|i: int, j: int| 0 <= i <= j < ascending(values).len() implies ascending(values)[i]
        <= ascending(values)[j] by {
        if i < j {
            assert(leq(ascending(values)[i], ascending(values)[j]));
        }
    }
}

/// There is one ascending order of some values.
pub proof fn ascending_order_is_unique(left: Seq<u128>, right: Seq<u128>)
    requires
        is_ascending(left),
        is_ascending(right),
        left.to_multiset() == right.to_multiset(),
    ensures
        left == right,
    decreases left.len(),
{
    broadcast use group_to_multiset_ensures;

    to_multiset_len(left);
    to_multiset_len(right);
    if left.len() > 0 {
        let (last, other) = (left.last(), right.last());
        assert(left.contains(last));
        assert(right.contains(other));
        assert(right.to_multiset().count(last) > 0);
        assert(left.to_multiset().count(other) > 0);
        assert(right.contains(last));
        assert(left.contains(other));
        assert(left.drop_last() =~= left.remove(left.len() - 1));
        assert(right.drop_last() =~= right.remove(right.len() - 1));
        ascending_order_is_unique(left.drop_last(), right.drop_last());
        assert(left =~= left.drop_last().push(last));
        assert(right =~= right.drop_last().push(other));
    } else {
        assert(left =~= right);
    }
}

/// The values in ascending order.
fn sorted(values: &[u128]) -> (ordered: Vec<u128>)
    ensures
        ordered@ == ascending(values@),
{
    broadcast use group_to_multiset_ensures;

    let mut ordered: Vec<u128> = Vec::with_capacity(values.len());
    for i in 0..values.len()
        invariant
            ordered.len() == i,
            is_ascending(ordered@),
            ordered@.to_multiset() == values@.take(i as int).to_multiset(),
    {
        let value: u128 = values[i];
        let mut position: usize = ordered.len();
        while position > 0 && ordered[position - 1] > value
            invariant
                position <= ordered.len(),
                is_ascending(ordered@),
                forall|j: int| position <= j < ordered.len() ==> value < #[trigger] ordered@[j],
            decreases position,
        {
            position = position - 1;
        }
        proof {
            to_multiset_insert(ordered@, position as int, value);
            to_multiset_build(values@.take(i as int), value);
        }
        ordered.insert(position, value);
        assert(values@.take(i + 1) =~= values@.take(i as int).push(value));
    }
    assert(values@.take(values@.len() as int) =~= values@);
    proof {
        ascending_sorts(values@);
        ascending_order_is_unique(ordered@, ascending(values@));
    }
    ordered
}

/// The median of the values.
pub fn median(values: &[u128]) -> (middle: Middle)
    requires
        values@.len() > 0,
    ensures
        middle == median_of(values@),
        middle is One <==> values@.len() % 2 == 1,
        middle is Two <==> values@.len() % 2 == 0,
{
    let ordered = sorted(values);
    proof {
        ascending_sorts(values@);
    }
    let half: usize = ordered.len() / 2;
    if ordered.len() % 2 == 0 {
        Middle::Two(ordered[half - 1], ordered[half])
    } else {
        Middle::One(ordered[half])
    }
}

/// The least, the middle and the greatest of the values.
pub fn summarize(values: &[u128]) -> (summary: Summary)
    requires
        values@.len() > 0,
    ensures
        values@.contains(summary.minimum),
        forall|i: int| 0 <= i < values@.len() ==> summary.minimum <= #[trigger] values@[i],
        values@.contains(summary.maximum),
        forall|i: int| 0 <= i < values@.len() ==> #[trigger] values@[i] <= summary.maximum,
        summary.median == median_of(values@),
        summary.median is One <==> values@.len() % 2 == 1,
        summary.median is Two <==> values@.len() % 2 == 0,
{
    let mut minimum: u128 = values[0];
    let mut maximum: u128 = values[0];
    for i in 1..values.len()
        invariant
            values@.len() > 0,
            values@.contains(minimum),
            values@.contains(maximum),
            forall|j: int| 0 <= j < i ==> minimum <= #[trigger] values@[j] <= maximum,
    {
        let value: u128 = values[i];
        if value < minimum {
            minimum = value;
        }
        if value > maximum {
            maximum = value;
        }
    }
    Summary { minimum, median: median(values), maximum }
}

/// The order in which values were measured does not change their median.
pub proof fn median_ignores_order(left: Seq<u128>, right: Seq<u128>)
    requires
        left.to_multiset() == right.to_multiset(),
    ensures
        median_of(left) == median_of(right),
{
    ascending_sorts(left);
    ascending_sorts(right);
    ascending_order_is_unique(ascending(left), ascending(right));
}

/// The median lies between any two bounds of the values, and the two values around an
/// even middle are in order.
pub proof fn median_stays_within_bounds(values: Seq<u128>, low: u128, high: u128)
    requires
        values.len() > 0,
        forall|i: int| 0 <= i < values.len() ==> low <= #[trigger] values[i] <= high,
    ensures
        match median_of(values) {
            Middle::One(middle) => low <= middle <= high,
            Middle::Two(lower, upper) => low <= lower <= upper <= high,
        },
{
    broadcast use group_to_multiset_ensures;

    ascending_sorts(values);
    let ordered = ascending(values);
    assert forall|i: int| 0 <= i < ordered.len() implies low <= #[trigger] ordered[i] <= high by {
        assert(ordered.contains(ordered[i]));
        assert(values.to_multiset().count(ordered[i]) > 0);
        assert(values.contains(ordered[i]));
    }
}

/// How many of the values, counted with multiplicity, satisfy `holds`.
pub open spec fn count_where(values: Seq<u128>, holds: spec_fn(u128) -> bool) -> nat
    decreases values.len(),
{
    if values.len() == 0 {
        0
    } else {
        count_where(values.drop_last(), holds) + if holds(values.last()) {
            1nat
        } else {
            0
        }
    }
}

/// The lower of the values around the middle; of one middle value, that value.
pub open spec fn lower_middle(middle: Middle) -> u128 {
    match middle {
        Middle::One(only) => only,
        Middle::Two(lower, _) => lower,
    }
}

/// The upper of the values around the middle; of one middle value, that value.
pub open spec fn upper_middle(middle: Middle) -> u128 {
    match middle {
        Middle::One(only) => only,
        Middle::Two(_, upper) => upper,
    }
}

proof fn count_is_that_of_the_multiset(values: Seq<u128>, holds: spec_fn(u128) -> bool)
    ensures
        count_where(values, holds) == values.to_multiset().filter(holds).len(),
    decreases values.len(),
{
    to_multiset_len(values);
    if values.len() == 0 {
        assert(values.to_multiset().filter(holds) =~= Multiset::empty());
    } else {
        let (earlier, last) = (values.drop_last(), values.last());
        count_is_that_of_the_multiset(earlier, holds);
        to_multiset_build(earlier, last);
        assert(values =~= earlier.push(last));
        let kept = earlier.to_multiset().filter(holds);
        if holds(last) {
            assert(values.to_multiset().filter(holds) =~= kept.insert(last));
        } else {
            assert(values.to_multiset().filter(holds) =~= kept);
        }
    }
}

proof fn count_of_a_stretch(
    values: Seq<u128>,
    holds: spec_fn(u128) -> bool,
    from: int,
    to: int,
)
    requires
        0 <= from <= to <= values.len(),
        forall|i: int| from <= i < to ==> holds(#[trigger] values[i]),
    ensures
        count_where(values, holds) >= to - from,
    decreases values.len(),
{
    if values.len() > 0 {
        let shorter = values.drop_last();
        assert forall|i: int| from <= i < to && i < shorter.len() implies holds(
            #[trigger] shorter[i],
        ) by {
            assert(shorter[i] == values[i]);
        }
        if to < values.len() {
            count_of_a_stretch(shorter, holds, from, to);
        } else if from < to {
            assert(holds(values[to - 1]));
            count_of_a_stretch(shorter, holds, from, to - 1);
        }
    }
}

/// At least half of the values are at most the lower middle, at least half are at least
/// the upper one, and both are among the values; of an odd number of values they are one.
pub proof fn median_halves_the_values(values: Seq<u128>)
    requires
        values.len() > 0,
    ensures
        2 * count_where(values, |value: u128| value <= lower_middle(median_of(values)))
            >= values.len(),
        2 * count_where(values, |value: u128| value >= upper_middle(median_of(values)))
            >= values.len(),
        values.contains(lower_middle(median_of(values))),
        values.contains(upper_middle(median_of(values))),
        values.len() % 2 == 1 ==> median_of(values) is One,
{
    broadcast use group_to_multiset_ensures;

    ascending_sorts(values);
    let ordered = ascending(values);
    let half = ordered.len() as int / 2;
    let lower = lower_middle(median_of(values));
    let upper = upper_middle(median_of(values));
    let below = |value: u128| value <= lower;
    let above = |value: u128| value >= upper;
    count_is_that_of_the_multiset(values, below);
    count_is_that_of_the_multiset(ordered, below);
    count_is_that_of_the_multiset(values, above);
    count_is_that_of_the_multiset(ordered, above);
    let lower_end = if ordered.len() % 2 == 0 {
        half
    } else {
        half + 1
    };
    assert(ordered[lower_end - 1] == lower);
    count_of_a_stretch(ordered, below, 0, lower_end);
    assert(ordered[half] == upper);
    count_of_a_stretch(ordered, above, half, ordered.len() as int);
    assert(ordered.contains(lower) && ordered.contains(upper));
    assert(values.to_multiset().count(lower) > 0 && values.to_multiset().count(upper) > 0);
}

proof fn count_is_that_of_the_filter(values: Seq<u128>, holds: spec_fn(u128) -> bool)
    ensures
        count_where(values, holds) == values.filter(holds).len(),
    decreases values.len(),
{
    reveal(Seq::filter);
    if values.len() > 0 {
        count_is_that_of_the_filter(values.drop_last(), holds);
    }
}

proof fn count_outside_a_stretch(
    values: Seq<u128>,
    holds: spec_fn(u128) -> bool,
    from: int,
    to: int,
)
    requires
        0 <= from <= to <= values.len(),
        forall|i: int| from <= i < to ==> !holds(#[trigger] values[i]),
    ensures
        count_where(values, holds) <= values.len() - (to - from),
    decreases values.len(),
{
    if values.len() > 0 {
        let shorter = values.drop_last();
        assert forall|i: int| from <= i < to && i < shorter.len() implies !holds(
            #[trigger] shorter[i],
        ) by {
            assert(shorter[i] == values[i]);
        }
        if to < values.len() {
            count_outside_a_stretch(shorter, holds, from, to);
        } else if from < to {
            assert(!holds(values[to - 1]));
            count_outside_a_stretch(shorter, holds, from, to - 1);
        } else {
            count_outside_a_stretch(shorter, holds, 0, 0);
        }
    }
}

/// How many values are below and at the value of a rank.
proof fn rank_counts(values: Seq<u128>, rank: int)
    requires
        0 <= rank < values.len(),
    ensures
        values.contains(ascending(values)[rank]),
        values.filter(|value: u128| value < ascending(values)[rank]).len() <= rank,
        values.filter(|value: u128| value <= ascending(values)[rank]).len() > rank,
{
    broadcast use group_to_multiset_ensures;

    ascending_sorts(values);
    let ordered = ascending(values);
    let middle = ordered[rank];
    let below = |value: u128| value < middle;
    let up_to = |value: u128| value <= middle;
    assert(ordered.contains(middle));
    assert(values.to_multiset().count(middle) > 0);
    count_is_that_of_the_filter(values, below);
    count_is_that_of_the_filter(values, up_to);
    count_is_that_of_the_multiset(values, below);
    count_is_that_of_the_multiset(ordered, below);
    count_is_that_of_the_multiset(values, up_to);
    count_is_that_of_the_multiset(ordered, up_to);
    count_outside_a_stretch(ordered, below, rank, ordered.len() as int);
    count_of_a_stretch(ordered, up_to, 0, rank + 1);
}

/// An odd number of values has one middle: fewer than half of the values are less, and
/// more than half are not greater.
pub proof fn odd_median_is_the_middle_value(values: Seq<u128>)
    requires
        values.len() % 2 == 1,
    ensures
        median_of(values) matches Middle::One(middle) && {
            &&& values.contains(middle)
            &&& 2 * values.filter(|value: u128| value < middle).len() < values.len()
            &&& 2 * values.filter(|value: u128| value <= middle).len() > values.len()
        },
{
    ascending_sorts(values);
    rank_counts(values, values.len() as int / 2);
}

/// An even number of values has two middles. Fewer than half of the values are less than
/// the lower one, and at least half are not greater. At most half are less than the upper
/// one, and more than half are not greater.
pub proof fn even_median_is_the_two_middle_values(values: Seq<u128>)
    requires
        values.len() > 0,
        values.len() % 2 == 0,
    ensures
        median_of(values) matches Middle::Two(lower, upper) && {
            &&& values.contains(lower)
            &&& values.contains(upper)
            &&& lower <= upper
            &&& 2 * values.filter(|value: u128| value < lower).len() < values.len()
            &&& 2 * values.filter(|value: u128| value <= lower).len() >= values.len()
            &&& 2 * values.filter(|value: u128| value < upper).len() <= values.len()
            &&& 2 * values.filter(|value: u128| value <= upper).len() > values.len()
        },
{
    ascending_sorts(values);
    rank_counts(values, values.len() as int / 2 - 1);
    rank_counts(values, values.len() as int / 2);
}

/// Of values that are already in ascending order, the median is read off in the middle.
pub proof fn median_of_ascending_values(values: Seq<u128>, half: int)
    requires
        half >= 0,
        forall|i: int, j: int| 0 <= i <= j < values.len() ==> values[i] <= values[j],
    ensures
        values.len() == 2 * half + 1 ==> median_of(values) == Middle::One(values[half]),
        half > 0 && values.len() == 2 * half ==> median_of(values) == Middle::Two(
            values[half - 1],
            values[half],
        ),
{
    ascending_sorts(values);
    ascending_order_is_unique(values, ascending(values));
}

} // verus!
