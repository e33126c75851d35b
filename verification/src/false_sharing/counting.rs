//! What two counters add up to, and how they lie in memory.
use vstd::prelude::*;

verus! {

/// The sum of two counters, as far as 64 bits hold it.
pub open spec fn counter_sum(producer: u64, consumer: u64) -> u64 {
    ((producer + consumer) % 0x1_0000_0000_0000_0000) as u64
}

/// The sum of the two counters, as far as 64 bits hold it.
pub fn checksum(producer: u64, consumer: u64) -> (sum: u64)
    ensures
        sum == counter_sum(producer, consumer),
        sum == producer + consumer || sum == producer + consumer - 0x1_0000_0000_0000_0000,
{
    producer.wrapping_add(consumer)
}

/// The checksum that two counters give after `iterations` increments each.
pub fn expected_checksum(iterations: u64) -> (sum: u64)
    ensures
        sum == counter_sum(iterations, iterations),
        sum == 2 * iterations || sum == 2 * iterations - 0x1_0000_0000_0000_0000,
{
    iterations.wrapping_mul(2)
}

/// How many increments the two threads make together, or the largest number that 64
/// bits hold where that is less.
pub fn total_updates(iterations: u64) -> (total: u64)
    ensures
        total == if 2 * iterations <= u64::MAX {
            2 * iterations
        } else {
            u64::MAX as int
        },
{
    match iterations.checked_mul(2) {
        Some(total) => total,
        None => u64::MAX,
    }
}

/// How a type lies in memory.
#[derive(Clone, Copy, Debug, PartialEq, Eq, Structural)]
pub struct Footprint {
    /// Its alignment in bytes.
    pub align: usize,
    /// Its size in bytes.
    pub size: usize,
}

/// Whether the shared counters fill one cache line of `line` bytes and the padded ones
/// two, both starting where a line does.
pub fn layouts_match(line: usize, shared: Footprint, padded: Footprint) -> (matching: bool)
    ensures
        matching <==> {
            &&& shared.align == line
            &&& shared.size == line
            &&& padded.align == line
            &&& padded.size == 2 * line
        },
{
    shared.align == line && shared.size == line && padded.align == line && padded.size % 2 == 0
        && padded.size / 2 == line
}

/// Counters that were never incremented add up to nothing. One more increment of either
/// counter alone raises the sum by one, which after the largest number that 64 bits hold
/// is zero again.
pub proof fn every_increment_shows(producer: u64, consumer: u64)
    ensures
        counter_sum(0, 0) == 0,
        producer < u64::MAX ==> counter_sum((producer + 1) as u64, consumer) == (if counter_sum(
            producer,
            consumer,
        ) == u64::MAX {
            0int
        } else {
            counter_sum(producer, consumer) + 1
        }),
        consumer < u64::MAX ==> counter_sum(producer, (consumer + 1) as u64) == (if counter_sum(
            producer,
            consumer,
        ) == u64::MAX {
            0int
        } else {
            counter_sum(producer, consumer) + 1
        }),
{
}

/// Two pairs of counters give one sum exactly where they made as many increments together,
/// or differ by a full turn of 64 bits. Which counter made them does not matter.
pub proof fn sums_tell_totals_apart(producer: u64, consumer: u64, other: u64, another: u64)
    ensures
        counter_sum(producer, consumer) == counter_sum(other, another) <==> {
            ||| producer + consumer == other + another
            ||| producer + consumer == other + another + 0x1_0000_0000_0000_0000
            ||| producer + consumer == other + another - 0x1_0000_0000_0000_0000
        },
        counter_sum(producer, consumer) == counter_sum(consumer, producer),
{
}

/// A missed update shows: where the counters fall short of `iterations` each, by less
/// than a full turn of 64 bits together, their sum is not the expected one.
pub proof fn missed_updates_show(iterations: u64, producer: u64, consumer: u64)
    requires
        producer <= iterations,
        consumer <= iterations,
        0 < (iterations - producer) + (iterations - consumer) < 0x1_0000_0000_0000_0000,
    ensures
        counter_sum(producer, consumer) != counter_sum(iterations, iterations),
{
}

/// Where one worker made all of its increments, the sum is the expected one only if the
/// other did too.
pub proof fn one_worker_cannot_hide_the_other(iterations: u64, made: u64)
    ensures
        counter_sum(iterations, made) == counter_sum(iterations, iterations) <==> made
            == iterations,
        counter_sum(made, iterations) == counter_sum(iterations, iterations) <==> made
            == iterations,
{
}

} // verus!
