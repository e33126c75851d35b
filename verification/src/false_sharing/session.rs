//! Which layout runs when, and what is kept of the runs.
use crate::false_sharing::config::Selection;
use crate::false_sharing::counting::expected_checksum;
use vstd::prelude::*;

verus! {

use crate::false_sharing::counting::counter_sum;
use vstd::seq_lib::{group_to_multiset_ensures, lemma_multiset_commutative};

/// One of the two layouts of the counters.
#[derive(Clone, Copy, Debug, PartialEq, Eq, Structural)]
pub enum LayoutKind {
    Shared,
    Padded,
}

/// The order of the layouts in the run of that number: where both are measured, the
/// shared layout leads the odd runs and the padded one the even ones.
pub open spec fn order_of_run(selection: Selection, run: nat) -> Seq<LayoutKind> {
    match selection {
        Selection::Both if run % 2 == 1 => seq![LayoutKind::Shared, LayoutKind::Padded],
        Selection::Both => seq![LayoutKind::Padded, LayoutKind::Shared],
        Selection::Shared => seq![LayoutKind::Shared],
        Selection::Padded => seq![LayoutKind::Padded],
    }
}

impl Selection {
    /// The layouts of the warm-up, in their order.
    pub fn warmup_order(self) -> (order: Vec<LayoutKind>)
        ensures
            order@ == (match self {
                Selection::Both => seq![LayoutKind::Shared, LayoutKind::Padded],
                Selection::Shared => seq![LayoutKind::Shared],
                Selection::Padded => seq![LayoutKind::Padded],
            }),
    {
        match self {
            Selection::Both => vec![LayoutKind::Shared, LayoutKind::Padded],
            Selection::Shared => vec![LayoutKind::Shared],
            Selection::Padded => vec![LayoutKind::Padded],
        }
    }

    /// The layouts of the run of that number, in their order.
    pub fn run_order(self, run: usize) -> (order: Vec<LayoutKind>)
        ensures
            order@ == order_of_run(self, run as nat),
            order@ == (match self {
                Selection::Both => if run % 2 == 1 {
                    seq![LayoutKind::Shared, LayoutKind::Padded]
                } else {
                    seq![LayoutKind::Padded, LayoutKind::Shared]
                },
                Selection::Shared => seq![LayoutKind::Shared],
                Selection::Padded => seq![LayoutKind::Padded],
            }),
    {
        match self {
            Selection::Both => {
                if run % 2 == 1 {
                    vec![LayoutKind::Shared, LayoutKind::Padded]
                } else {
                    vec![LayoutKind::Padded, LayoutKind::Shared]
                }
            },
            Selection::Shared => vec![LayoutKind::Shared],
            Selection::Padded => vec![LayoutKind::Padded],
        }
    }
}

/// The checksum of a run shows that a worker missed updates.
#[derive(Clone, Copy, Debug, PartialEq, Eq, Structural)]
pub struct MissedUpdates {
    /// The checksum without a missed update.
    pub expected: u64,
}

/// The times of the runs so far, in nanoseconds, and the checksum that every run owes.
pub struct Measurements {
    expected: u64,
    shared: Vec<u128>,
    padded: Vec<u128>,
}

impl Measurements {
    /// The checksum that every run owes.
    pub closed spec fn expected(&self) -> u64 {
        self.expected
    }

    /// The times of the runs of one layout, in the order of the runs.
    pub closed spec fn times(&self, kind: LayoutKind) -> Seq<u128> {
        match kind {
            LayoutKind::Shared => self.shared@,
            LayoutKind::Padded => self.padded@,
        }
    }

    /// No runs yet, of `iterations` increments of each counter.
    pub fn new(iterations: u64) -> (none: Self)
        ensures
            none.expected() == counter_sum(iterations, iterations),
            none.expected() == 2 * iterations || none.expected() == 2 * iterations
                - 0x1_0000_0000_0000_0000,
            forall|kind: LayoutKind| #[trigger] none.times(kind) == Seq::<u128>::empty(),
    {
        Measurements {
            expected: expected_checksum(iterations),
            shared: Vec::new(),
            padded: Vec::new(),
        }
    }

    /// Keeps a run, unless its checksum is not the one that it owes.
    pub fn record(&mut self, kind: LayoutKind, nanos: u128, checksum: u64) -> (kept: Result<
        (),
        MissedUpdates,
    >)
        ensures
            if checksum != old(self).expected() {
                &&& kept == Err::<(), MissedUpdates>(
                    MissedUpdates { expected: old(self).expected() },
                )
                &&& *final(self) == *old(self)
            } else {
                &&& kept is Ok
                &&& final(self).expected() == old(self).expected()
                &&& forall|other: LayoutKind| #[trigger]
                    final(self).times(other) == (if other == kind {
                        old(self).times(other).push(nanos)
                    } else {
                        old(self).times(other)
                    })
            },
    {
        if checksum != self.expected {
            return Err(MissedUpdates { expected: self.expected });
        }
        match kind {
            LayoutKind::Shared => self.shared.push(nanos),
            LayoutKind::Padded => self.padded.push(nanos),
        }
        Ok(())
    }

    /// The times of the runs of one layout, in the order of the runs.
    pub fn nanos(&self, kind: LayoutKind) -> (times: &Vec<u128>)
        ensures
            times@ == self.times(kind),
    {
        match kind {
            LayoutKind::Shared => &self.shared,
            LayoutKind::Padded => &self.padded,
        }
    }
}

/// Whether a selection measures a layout.
pub open spec fn is_selected(selection: Selection, kind: LayoutKind) -> bool {
    match selection {
        Selection::Both => true,
        Selection::Shared => kind is Shared,
        Selection::Padded => kind is Padded,
    }
}

/// The steps of the run of that number: its layouts in their order.
pub open spec fn steps_of_run(selection: Selection, run: nat) -> Seq<(nat, LayoutKind)> {
    order_of_run(selection, run).map_values(|kind: LayoutKind| (run, kind))
}

/// The steps of the runs from the first to that of number `runs`: the number of the run,
/// and the layout to measure.
pub open spec fn schedule(selection: Selection, runs: nat) -> Seq<(nat, LayoutKind)>
    decreases runs,
{
    if runs == 0 {
        Seq::empty()
    } else {
        schedule(selection, (runs - 1) as nat) + steps_of_run(selection, runs)
    }
}

/// How many steps that many runs have.
pub open spec fn steps_in(selection: Selection, runs: nat) -> nat {
    match selection {
        Selection::Both => 2 * runs,
        _ => runs,
    }
}

proof fn schedule_by_place(selection: Selection, runs: nat, run: nat, place: nat)
    ensures
        schedule(selection, runs).len() == steps_in(selection, runs),
        run < runs && place < steps_in(selection, 1) ==> schedule(
            selection,
            runs,
        )[(steps_in(selection, run) + place) as int] == (
            run + 1,
            order_of_run(selection, run + 1)[place as int],
        ),
    decreases runs,
{
    if runs > 0 {
        schedule_by_place(selection, (runs - 1) as nat, run, place);
    }
}

/// Hands out the steps of the schedule, one at a time.
pub struct Session {
    selection: Selection,
    runs: usize,
    /// How many runs are complete.
    complete: usize,
    /// How many layouts of the run after them were handed out.
    place: usize,
}

impl Session {
    /// The layouts that are measured.
    pub closed spec fn selection(&self) -> Selection {
        self.selection
    }

    /// How many runs are measured.
    pub closed spec fn runs(&self) -> usize {
        self.runs
    }

    /// How many steps were handed out so far.
    pub closed spec fn handed_out(&self) -> nat {
        steps_in(self.selection, self.complete as nat) + self.place as nat
    }

    /// All steps of the session.
    pub open spec fn steps(&self) -> Seq<(nat, LayoutKind)> {
        schedule(self.selection(), self.runs() as nat)
    }

    /// The representation invariant.
    pub closed spec fn wf(&self) -> bool {
        &&& self.complete <= self.runs
        &&& self.place < steps_in(self.selection, 1)
        &&& self.complete == self.runs ==> self.place == 0
    }

    /// A session that has handed out nothing.
    pub fn new(selection: Selection, runs: usize) -> (session: Self)
        ensures
            session.wf(),
            session.selection() == selection,
            session.runs() == runs,
            session.handed_out() == 0,
    {
        Session { selection, runs, complete: 0, place: 0 }
    }

    /// The next step, the number of its run and the layout to measure, or `None` once
    /// all steps were handed out.
    pub fn next(&mut self) -> (step: Option<(usize, LayoutKind)>)
        requires
            old(self).wf(),
        ensures
            final(self).wf(),
            final(self).selection() == old(self).selection(),
            final(self).runs() == old(self).runs(),
            old(self).handed_out() <= old(self).steps().len(),
            match step {
                Some((run, kind)) => {
                    &&& old(self).handed_out() < old(self).steps().len()
                    &&& old(self).steps()[old(self).handed_out() as int] == (run as nat, kind)
                    &&& final(self).handed_out() == old(self).handed_out() + 1
                },
                None => {
                    &&& old(self).handed_out() == old(self).steps().len()
                    &&& final(self).handed_out() == old(self).handed_out()
                },
            },
            step is None <==> old(self).handed_out() == (if old(self).selection() is Both {
                2 * old(self).runs()
            } else {
                old(self).runs() as int
            }),
            step matches Some((run, kind)) ==> match old(self).selection() {
                Selection::Both => {
                    &&& run == old(self).handed_out() / 2 + 1
                    &&& kind is Shared <==> (run + old(self).handed_out() % 2) % 2 == 1
                },
                Selection::Shared => run == old(self).handed_out() + 1 && kind is Shared,
                Selection::Padded => run == old(self).handed_out() + 1 && kind is Padded,
            },
    {
        proof {
            schedule_step_by_step(self.runs as nat, self.handed_out() as int);
            schedule_by_place(
                self.selection,
                self.runs as nat,
                self.complete as nat,
                self.place as nat,
            );
        }
        if self.complete == self.runs {
            return None;
        }
        let run: usize = self.complete + 1;
        let order = self.selection.run_order(run);
        let kind: LayoutKind = order[self.place];
        if self.place + 1 < order.len() {
            self.place = self.place + 1;
        } else {
            self.place = 0;
            self.complete = run;
        }
        Some((run, kind))
    }
}

/// Every run measures every selected layout once, and no other.
pub proof fn run_measures_each_selected_layout_once(
    selection: Selection,
    run: nat,
    kind: LayoutKind,
)
    ensures
        order_of_run(selection, run).to_multiset().count(kind) == if is_selected(selection, kind) {
            1nat
        } else {
            0
        },
{
    broadcast use group_to_multiset_ensures;

    let order = order_of_run(selection, run);
    let none = Seq::<LayoutKind>::empty();
    assert(none.to_multiset().len() == 0);
    assert(none.to_multiset().count(kind) == 0);
    match selection {
        Selection::Both => {
            assert(order =~= none.push(order[0]).push(order[1]));
        },
        _ => {
            assert(order =~= none.push(order[0]));
        },
    }
}

/// The layouts that a session measures, in their order.
pub open spec fn measured(selection: Selection, runs: nat) -> Seq<LayoutKind> {
    schedule(selection, runs).map_values(|step: (nat, LayoutKind)| step.1)
}

/// After `runs` runs there are as many times of every selected layout, and none of
/// another.
pub proof fn schedule_measures_each_selected_layout_every_run(
    selection: Selection,
    runs: nat,
    kind: LayoutKind,
)
    ensures
        measured(selection, runs).to_multiset().count(kind) == if is_selected(selection, kind) {
            runs
        } else {
            0
        },
    decreases runs,
{
    broadcast use group_to_multiset_ensures;

    if runs > 0 {
        let before = (runs - 1) as nat;
        schedule_measures_each_selected_layout_every_run(selection, before, kind);
        run_measures_each_selected_layout_once(selection, runs, kind);
        lemma_multiset_commutative(measured(selection, before), order_of_run(selection, runs));
        assert(measured(selection, runs) =~= measured(selection, before) + order_of_run(
            selection,
            runs,
        ));
    } else {
        assert(measured(selection, 0).to_multiset().len() == 0);
    }
}

/// Where both layouts are measured, they take turns at going first.
pub proof fn layouts_take_turns_at_leading(run: nat)
    ensures
        order_of_run(Selection::Both, run).first() != order_of_run(
            Selection::Both,
            run + 1,
        ).first(),
        order_of_run(Selection::Both, run).reverse() == order_of_run(Selection::Both, run + 1),
{
    assert(order_of_run(Selection::Both, run).reverse() =~= order_of_run(Selection::Both, run + 1));
}

/// Where both layouts are measured, the odd runs measure the shared one first and the even
/// runs the padded one, and the other one second; where one is, every run measures it alone.
pub proof fn order_goes_by_parity(run: nat)
    ensures
        run % 2 == 1 ==> order_of_run(Selection::Both, run) == seq![LayoutKind::Shared, LayoutKind::Padded],
        run % 2 == 0 ==> order_of_run(Selection::Both, run) == seq![LayoutKind::Padded, LayoutKind::Shared],
        order_of_run(Selection::Shared, run) == seq![LayoutKind::Shared],
        order_of_run(Selection::Padded, run) == seq![LayoutKind::Padded],
{
}

/// The step at every place of a schedule. Of both layouts there are two steps per run,
/// and the shared one is at a place whose run number and place add up to an odd number, the
/// places of a run counted from zero. Of one there is a step per run.
pub proof fn schedule_step_by_step(runs: nat, at: int)
    ensures
        schedule(Selection::Both, runs).len() == 2 * runs,
        schedule(Selection::Shared, runs).len() == runs,
        schedule(Selection::Padded, runs).len() == runs,
        0 <= at < 2 * runs ==> schedule(Selection::Both, runs)[at] == (
            (at / 2 + 1) as nat,
            if (at / 2 + 1 + at % 2) % 2 == 1 {
                LayoutKind::Shared
            } else {
                LayoutKind::Padded
            },
        ),
        0 <= at < runs ==> schedule(Selection::Shared, runs)[at] == (
            (at + 1) as nat,
            LayoutKind::Shared,
        ),
        0 <= at < runs ==> schedule(Selection::Padded, runs)[at] == (
            (at + 1) as nat,
            LayoutKind::Padded,
        ),
{
    schedule_by_place(Selection::Shared, runs, at as nat, 0);
    schedule_by_place(Selection::Padded, runs, at as nat, 0);
    schedule_by_place(Selection::Both, runs, (at / 2) as nat, (at % 2) as nat);
}

/// The layouts that a selection measures.
pub proof fn selection_measures_what_it_names(kind: LayoutKind)
    ensures
        is_selected(Selection::Both, kind),
        is_selected(Selection::Shared, kind) <==> kind == LayoutKind::Shared,
        is_selected(Selection::Padded, kind) <==> kind == LayoutKind::Padded,
{
}

} // verus!
