//! How a coordinator and two workers measure the counting together.
//!
//! The three meet at a barrier: when the workers are ready, when the coordinator has
//! started the clock, and when the workers have finished. Each party follows a script.
use vstd::prelude::*;

verus! {

use crate::false_sharing::counting::counter_sum;
use vstd::arithmetic::div_mod::{lemma_add_mod_noop, lemma_add_mod_noop_right};

/// How many parties the barrier is made for: the coordinator and the two workers.
pub const PARTIES: usize = 3;

/// One step of a party.
#[derive(Clone, Copy, Debug, PartialEq, Eq, Structural)]
pub enum Step {
    /// Wait at the barrier until all parties do.
    Wait,
    /// Read the clock for the first time.
    StartClock,
    /// Increment the worker's own counter that often.
    Increment { times: u64 },
    /// Read the clock for the second time.
    StopClock,
}

/// The steps of a worker: it reports ready, waits for the start, counts, and reports that
/// it has finished.
pub open spec fn worker_steps(iterations: u64) -> Seq<Step> {
    seq![Step::Wait, Step::Wait, Step::Increment { times: iterations }, Step::Wait]
}

/// The steps of the coordinator: it waits until both workers are ready, starts the clock,
/// releases them together, waits until both have finished, and stops the clock.
pub open spec fn coordinator_steps() -> Seq<Step> {
    seq![Step::Wait, Step::StartClock, Step::Wait, Step::Wait, Step::StopClock]
}

/// The script of a worker.
pub fn worker_script(iterations: u64) -> (script: Vec<Step>)
    ensures
        script@ == worker_steps(iterations),
        script@ == seq![Step::Wait, Step::Wait, Step::Increment { times: iterations }, Step::Wait],
{
    vec![Step::Wait, Step::Wait, Step::Increment { times: iterations }, Step::Wait]
}

/// The script of the coordinator.
pub fn coordinator_script() -> (script: Vec<Step>)
    ensures
        script@ == coordinator_steps(),
        script@ == seq![Step::Wait, Step::StartClock, Step::Wait, Step::Wait, Step::StopClock],
{
    vec![Step::Wait, Step::StartClock, Step::Wait, Step::Wait, Step::StopClock]
}

/// Where a worker is in its script.
pub struct WorkerState {
    /// How many steps it has completed.
    pub completed: nat,
    /// How many increments of its current step it has made.
    pub made: nat,
    /// Its counter.
    pub counter: u64,
}

/// Where all parties are.
pub struct State {
    pub producer: WorkerState,
    pub consumer: WorkerState,
    /// How many steps the coordinator has completed.
    pub coordinator: nat,
}

/// The values of the two counters.
pub struct Counts {
    pub producer: u64,
    pub consumer: u64,
}

/// Both counters at zero, as a run makes them.
pub open spec fn fresh() -> Counts {
    Counts { producer: 0, consumer: 0 }
}

/// Before anyone has moved, with the counters at `start`.
pub open spec fn initial(start: Counts) -> State {
    State {
        producer: WorkerState { completed: 0, made: 0, counter: start.producer },
        consumer: WorkerState { completed: 0, made: 0, counter: start.consumer },
        coordinator: 0,
    }
}

/// A counter that was at `start`, after that many increments: it wraps around after the
/// largest number that 64 bits hold.
pub open spec fn after_increments(start: u64, times: nat) -> u64 {
    ((start + times) % 0x1_0000_0000_0000_0000) as u64
}

proof fn one_more_increment(start: u64, times: nat)
    ensures
        after_increments(start, 0) == start,
        after_increments(after_increments(start, times), 1) == after_increments(start, times + 1),
{
    lemma_add_mod_noop_right(1, start + times, 0x1_0000_0000_0000_0000);
}

/// Whether a party that has completed that many steps of its script waits at the barrier.
pub open spec fn is_waiting(script: Seq<Step>, completed: nat) -> bool {
    completed < script.len() && script[completed as int] is Wait
}

/// A worker moves by itself: it makes one increment, or completes a step that asks for no
/// more of them.
pub open spec fn worker_moves(iterations: u64, before: WorkerState, after: WorkerState) -> bool {
    &&& before.completed < worker_steps(iterations).len()
    &&& worker_steps(iterations)[before.completed as int] matches Step::Increment { times }
    &&& after == if before.made < times {
        WorkerState {
            completed: before.completed,
            made: before.made + 1,
            counter: after_increments(before.counter, 1),
        }
    } else {
        WorkerState { completed: before.completed + 1, made: 0, counter: before.counter }
    }
}

/// How many parties wait at the barrier.
pub open spec fn waiting_parties(iterations: u64, state: State) -> nat {
    let producer = is_waiting(worker_steps(iterations), state.producer.completed);
    let consumer = is_waiting(worker_steps(iterations), state.consumer.completed);
    let coordinator = is_waiting(coordinator_steps(), state.coordinator);
    (if producer { 1nat } else { 0 }) + (if consumer { 1nat } else { 0 }) + (if coordinator {
        1nat
    } else {
        0
    })
}

/// A worker when the barrier opens: it passes if it waits there.
pub open spec fn worker_released(iterations: u64, worker: WorkerState) -> WorkerState {
    if is_waiting(worker_steps(iterations), worker.completed) {
        WorkerState { completed: worker.completed + 1, ..worker }
    } else {
        worker
    }
}

/// All parties when the barrier opens: those that wait there pass.
pub open spec fn released(iterations: u64, state: State) -> State {
    State {
        producer: worker_released(iterations, state.producer),
        consumer: worker_released(iterations, state.consumer),
        coordinator: if is_waiting(coordinator_steps(), state.coordinator) {
            state.coordinator + 1
        } else {
            state.coordinator
        },
    }
}

/// One move: a party that does not wait takes its next step, or the barrier opens, once
/// as many parties wait as it was made for.
pub open spec fn moves(iterations: u64, before: State, after: State) -> bool {
    ||| {
        &&& worker_moves(iterations, before.producer, after.producer)
        &&& after.consumer == before.consumer
        &&& after.coordinator == before.coordinator
    }
    ||| {
        &&& worker_moves(iterations, before.consumer, after.consumer)
        &&& after.producer == before.producer
        &&& after.coordinator == before.coordinator
    }
    ||| {
        &&& before.coordinator < coordinator_steps().len()
        &&& !is_waiting(coordinator_steps(), before.coordinator)
        &&& after == (State { coordinator: before.coordinator + 1, ..before })
    }
    ||| {
        &&& waiting_parties(iterations, before) == PARTIES
        &&& after == released(iterations, before)
    }
}

/// Whether `trace` is how a measurement on counters at `start` may go, from its beginning
/// to any point: the parties move in any order that the barrier allows.
pub open spec fn is_execution(iterations: u64, start: Counts, trace: Seq<State>) -> bool {
    &&& trace.len() > 0
    &&& trace[0] == initial(start)
    &&& forall|i: int, j: int|
        0 <= i && j == i + 1 && j < trace.len() ==> moves(
            iterations,
            #[trigger] trace[i],
            #[trigger] trace[j],
        )
}

/// Whether all parties are at the end of their scripts.
pub open spec fn is_finished(iterations: u64, state: State) -> bool {
    &&& state.producer.completed == worker_steps(iterations).len()
    &&& state.consumer.completed == worker_steps(iterations).len()
    &&& state.coordinator == coordinator_steps().len()
}

/// Whether the coordinator has read the clock for the first time.
pub open spec fn clock_started(state: State) -> bool {
    state.coordinator > 1
}

/// Whether the coordinator has read the clock for the second time.
pub open spec fn clock_stopped(state: State) -> bool {
    state.coordinator == coordinator_steps().len()
}

/// How many waits are among the first `count` steps of a script.
pub open spec fn waits_among(script: Seq<Step>, count: nat) -> nat
    decreases count,
{
    if count == 0 {
        0
    } else {
        waits_among(script, (count - 1) as nat) + if script[count - 1] is Wait {
            1nat
        } else {
            0
        }
    }
}

spec fn worker_ok(iterations: u64, start: u64, worker: WorkerState) -> bool {
    &&& worker.completed <= 4
    &&& worker.completed < 2 ==> worker.counter == start
    &&& worker.completed == 2 ==> worker.counter == after_increments(start, worker.made)
        && worker.made <= iterations
    &&& worker.completed > 2 ==> worker.counter == after_increments(start, iterations as nat)
    &&& worker.completed != 2 ==> worker.made == 0
}

spec fn worker_waits(worker: WorkerState) -> nat {
    if worker.completed <= 2 {
        worker.completed
    } else {
        (worker.completed - 1) as nat
    }
}

spec fn coordinator_waits(completed: nat) -> nat {
    if completed == 0 {
        0
    } else if completed <= 2 {
        1
    } else if completed == 3 {
        2
    } else {
        3
    }
}

spec fn state_ok(iterations: u64, start: Counts, state: State) -> bool {
    &&& worker_ok(iterations, start.producer, state.producer)
    &&& worker_ok(iterations, start.consumer, state.consumer)
    &&& state.coordinator <= 5
    &&& worker_waits(state.producer) == coordinator_waits(state.coordinator)
    &&& worker_waits(state.consumer) == coordinator_waits(state.coordinator)
}

proof fn move_keeps_state_ok(iterations: u64, start: Counts, before: State, after: State)
    requires
        state_ok(iterations, start, before),
        moves(iterations, before, after),
    ensures
        state_ok(iterations, start, after),
{
    one_more_increment(start.producer, before.producer.made);
    one_more_increment(start.consumer, before.consumer.made);
}

proof fn execution_is_ok(iterations: u64, start: Counts, trace: Seq<State>, at: int)
    requires
        is_execution(iterations, start, trace),
        0 <= at < trace.len(),
    ensures
        state_ok(iterations, start, trace[at]),
    decreases at,
{
    if at > 0 {
        execution_is_ok(iterations, start, trace, at - 1);
        assert(moves(iterations, trace[at - 1], trace[at]));
        move_keeps_state_ok(iterations, start, trace[at - 1], trace[at]);
    }
}

/// Increments add up: none leaves a counter as it was, one raises it by one or wraps it
/// from the largest number that 64 bits hold to zero, and making some and then others is
/// making all of them.
pub proof fn increments_compose(start: u64, some: nat, others: nat)
    ensures
        after_increments(start, 0) == start,
        after_increments(start, 1) == (if start == u64::MAX {
            0int
        } else {
            start + 1
        }),
        after_increments(after_increments(start, some), others) == after_increments(
            start,
            some + others,
        ),
{
    lemma_add_mod_noop_right(others as int, start + some, 0x1_0000_0000_0000_0000);
}

/// The clock has started once the coordinator's step to start it is completed, and stopped
/// once its step to stop it is.
pub proof fn clock_follows_the_script(state: State)
    requires
        state.coordinator <= coordinator_steps().len(),
    ensures
        clock_started(state) <==> exists|i: int|
            0 <= i < state.coordinator && #[trigger] coordinator_steps()[i] is StartClock,
        clock_stopped(state) <==> exists|i: int|
            0 <= i < state.coordinator && #[trigger] coordinator_steps()[i] is StopClock,
{
    assert(coordinator_steps()[1] is StartClock);
    assert(coordinator_steps()[4] is StopClock);
}

/// However the threads run, nothing is counted before the clock has started, and
/// everything is counted before it is stopped.
pub proof fn clock_spans_the_counting(iterations: u64, start: Counts, trace: Seq<State>, at: int)
    requires
        is_execution(iterations, start, trace),
        0 <= at < trace.len(),
    ensures
        !clock_started(trace[at]) ==> {
            &&& trace[at].producer.counter == start.producer
            &&& trace[at].consumer.counter == start.consumer
        },
        clock_stopped(trace[at]) ==> {
            &&& trace[at].producer.counter == after_increments(start.producer, iterations as nat)
            &&& trace[at].consumer.counter == after_increments(start.consumer, iterations as nat)
        },
{
    execution_is_ok(iterations, start, trace, at);
}

proof fn increments_add_up(producer: u64, consumer: u64, times: u64)
    ensures
        counter_sum(
            after_increments(producer, times as nat),
            after_increments(consumer, times as nat),
        ) == after_increments(counter_sum(producer, consumer), 2 * times as nat),
{
    let size = 0x1_0000_0000_0000_0000int;
    lemma_add_mod_noop(producer + times, consumer + times, size);
    lemma_add_mod_noop_right(2 * times, producer + consumer, size);
}

/// However the threads run, no update is missed: when all are finished, each counter has
/// been incremented `iterations` times, and the checksum is that of the start and twice
/// as many increments.
pub proof fn no_update_is_missed(iterations: u64, start: Counts, trace: Seq<State>)
    requires
        is_execution(iterations, start, trace),
        is_finished(iterations, trace.last()),
    ensures
        trace.last().producer.counter == after_increments(start.producer, iterations as nat),
        trace.last().consumer.counter == after_increments(start.consumer, iterations as nat),
        counter_sum(trace.last().producer.counter, trace.last().consumer.counter)
            == after_increments(
            counter_sum(start.producer, start.consumer),
            2 * iterations as nat,
        ),
{
    execution_is_ok(iterations, start, trace, trace.len() - 1);
    increments_add_up(start.producer, start.consumer, iterations);
}

/// Fresh counters end at the number of iterations, and give the checksum that a run owes.
pub proof fn fresh_counters_give_the_expected_checksum(iterations: u64, trace: Seq<State>)
    requires
        is_execution(iterations, fresh(), trace),
        is_finished(iterations, trace.last()),
    ensures
        trace.last().producer.counter == iterations,
        trace.last().consumer.counter == iterations,
        counter_sum(trace.last().producer.counter, trace.last().consumer.counter) == counter_sum(
            iterations,
            iterations,
        ),
{
    no_update_is_missed(iterations, fresh(), trace);
}

/// No fresh counter ever passes the number of iterations, so that none wraps around.
pub proof fn fresh_counters_stay_within_iterations(iterations: u64, trace: Seq<State>, at: int)
    requires
        is_execution(iterations, fresh(), trace),
        0 <= at < trace.len(),
    ensures
        trace[at].producer.counter <= iterations,
        trace[at].consumer.counter <= iterations,
{
    execution_is_ok(iterations, fresh(), trace, at);
}

spec fn worker_after_move(iterations: u64, worker: WorkerState) -> WorkerState {
    if worker.made < iterations {
        WorkerState {
            completed: worker.completed,
            made: worker.made + 1,
            counter: after_increments(worker.counter, 1),
        }
    } else {
        WorkerState { completed: worker.completed + 1, made: 0, counter: worker.counter }
    }
}

proof fn some_move(iterations: u64, start: Counts, before: State) -> (after: State)
    requires
        state_ok(iterations, start, before),
        !is_finished(iterations, before),
    ensures
        moves(iterations, before, after),
{
    if before.producer.completed == 2 {
        State { producer: worker_after_move(iterations, before.producer), ..before }
    } else if before.consumer.completed == 2 {
        State { consumer: worker_after_move(iterations, before.consumer), ..before }
    } else if before.coordinator == 1 || before.coordinator == 4 {
        State { coordinator: before.coordinator + 1, ..before }
    } else {
        released(iterations, before)
    }
}

/// The parties never block each other: unless all are finished, some move is possible.
pub proof fn parties_never_deadlock(iterations: u64, start: Counts, trace: Seq<State>) -> (after:
    State)
    requires
        is_execution(iterations, start, trace),
        !is_finished(iterations, trace.last()),
    ensures
        moves(iterations, trace.last(), after),
        is_execution(iterations, start, trace.push(after)),
{
    execution_is_ok(iterations, start, trace, trace.len() - 1);
    let after = some_move(iterations, start, trace.last());
    let longer = trace.push(after);
    assert forall|i: int, j: int| 0 <= i && j == i + 1 && j < longer.len() implies moves(
        iterations,
        #[trigger] longer[i],
        #[trigger] longer[j],
    ) by {
        assert(longer[i] == trace[i]);
        if j < trace.len() {
            assert(longer[j] == trace[j]);
        }
    }
    after
}

/// How many moves a worker still makes by itself.
spec fn worker_remaining(iterations: u64, worker: WorkerState) -> int {
    if worker.completed <= 2 {
        iterations - worker.made + 1
    } else {
        0
    }
}

/// How many moves are still to come; those of the barrier count with the coordinator.
spec fn remaining(iterations: u64, state: State) -> int {
    worker_remaining(iterations, state.producer) + worker_remaining(iterations, state.consumer) + (5
        - state.coordinator)
}

proof fn every_move_counts(iterations: u64, start: Counts, trace: Seq<State>, at: int)
    requires
        is_execution(iterations, start, trace),
        0 <= at < trace.len(),
    ensures
        remaining(iterations, trace[at]) == 2 * iterations + 7 - at,
    decreases at,
{
    if at > 0 {
        every_move_counts(iterations, start, trace, at - 1);
        execution_is_ok(iterations, start, trace, at - 1);
        assert(moves(iterations, trace[at - 1], trace[at]));
    }
}

/// Every measurement ends: all parties are finished after `2 * iterations + 7` moves, not
/// before, and no move follows.
pub proof fn measurement_ends(iterations: u64, start: Counts, trace: Seq<State>)
    requires
        is_execution(iterations, start, trace),
    ensures
        trace.len() - 1 <= 2 * iterations + 7,
        is_finished(iterations, trace.last()) <==> trace.len() - 1 == 2 * iterations + 7,
{
    every_move_counts(iterations, start, trace, trace.len() - 1);
    execution_is_ok(iterations, start, trace, trace.len() - 1);
}

/// Every party passes the barrier equally often.
pub proof fn parties_wait_equally_often(iterations: u64)
    ensures
        waits_among(worker_steps(iterations), worker_steps(iterations).len()) == waits_among(
            coordinator_steps(),
            coordinator_steps().len(),
        ),
{
    reveal_with_fuel(waits_among, 6);
}

} // verus!
