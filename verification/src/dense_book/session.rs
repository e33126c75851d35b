//! Which book runs when, and what is kept of the runs.
use crate::dense_book::config::Selection;
use crate::dense_book::replay::{run_dense, run_tree};
use crate::dense_book::workload::{Operation, MIN_PRICE};
use std::time::Duration;
use vstd::prelude::*;

verus! {

use crate::dense_book::agreement::runs_agree_on_the_workload;
use crate::dense_book::book::dense_addressable;
use crate::dense_book::replay::{dense_checksum, tree_checksum, updates_within};
use crate::dense_book::workload::workload;
use vstd::seq_lib::{group_to_multiset_ensures, lemma_multiset_commutative};

/// One of the two books.
#[derive(Clone, Copy, Debug, PartialEq, Eq, Structural)]
pub enum BookKind {
    Tree,
    Dense,
}

/// The order of the books in the run of that number: where both are measured, the tree
/// book leads the odd runs and the dense book the even ones.
pub open spec fn order_of_run(selection: Selection, run: nat) -> Seq<BookKind> {
    match selection {
        Selection::Both if run % 2 == 1 => seq![BookKind::Tree, BookKind::Dense],
        Selection::Both => seq![BookKind::Dense, BookKind::Tree],
        Selection::Tree => seq![BookKind::Tree],
        Selection::Dense => seq![BookKind::Dense],
    }
}

impl Selection {
    /// The books of the warm-up, in their order.
    pub fn warmup_order(self) -> (order: Vec<BookKind>)
        ensures
            order@ == (match self {
                Selection::Both => seq![BookKind::Tree, BookKind::Dense],
                Selection::Tree => seq![BookKind::Tree],
                Selection::Dense => seq![BookKind::Dense],
            }),
    {
        match self {
            Selection::Both => vec![BookKind::Tree, BookKind::Dense],
            Selection::Tree => vec![BookKind::Tree],
            Selection::Dense => vec![BookKind::Dense],
        }
    }

    /// The books of the run of that number, in their order.
    pub fn run_order(self, run: usize) -> (order: Vec<BookKind>)
        ensures
            order@ == order_of_run(self, run as nat),
            order@ == (match self {
                Selection::Both => if run % 2 == 1 {
                    seq![BookKind::Tree, BookKind::Dense]
                } else {
                    seq![BookKind::Dense, BookKind::Tree]
                },
                Selection::Tree => seq![BookKind::Tree],
                Selection::Dense => seq![BookKind::Dense],
            }),
    {
        match self {
            Selection::Both => {
                if run % 2 == 1 {
                    vec![BookKind::Tree, BookKind::Dense]
                } else {
                    vec![BookKind::Dense, BookKind::Tree]
                }
            },
            Selection::Tree => vec![BookKind::Tree],
            Selection::Dense => vec![BookKind::Dense],
        }
    }
}

/// The checksum of `operations` on the freshly seeded book of that kind.
pub open spec fn book_checksum(kind: BookKind, operations: Seq<Operation>) -> u64 {
    match kind {
        BookKind::Tree => tree_checksum(operations),
        BookKind::Dense => dense_checksum(operations),
    }
}

/// Replays `operations` against the freshly seeded book of that kind.
///
/// Nothing is claimed of the time.
pub fn run_book(kind: BookKind, operations: &[Operation]) -> (outcome: (Duration, u64))
    requires
        kind is Dense ==> updates_within(dense_addressable(MIN_PRICE), operations@),
    ensures
        outcome.1 == book_checksum(kind, operations@),
        kind is Tree ==> outcome.1 == tree_checksum(operations@),
        kind is Dense ==> outcome.1 == dense_checksum(operations@),
        match kind {
            BookKind::Tree => call_ensures(run_tree, (operations,), outcome),
            BookKind::Dense => call_ensures(run_dense, (operations,), outcome),
        },
{
    match kind {
        BookKind::Tree => run_tree(operations),
        BookKind::Dense => run_dense(operations),
    }
}

/// The checksum of a run is not that of the runs before it.
#[derive(Clone, Copy, Debug, PartialEq, Eq, Structural)]
pub struct Mismatch {
    /// The checksum of the runs before.
    pub expected: u64,
}

/// The times of the runs so far, in nanoseconds, and the checksum that they all gave.
pub struct Measurements {
    expected: Option<u64>,
    tree: Vec<u128>,
    dense: Vec<u128>,
}

impl Measurements {
    /// The checksum that the runs so far gave, if there was one.
    pub closed spec fn expected(&self) -> Option<u64> {
        self.expected
    }

    /// The times of the runs of one book, in the order of the runs.
    pub closed spec fn times(&self, kind: BookKind) -> Seq<u128> {
        match kind {
            BookKind::Tree => self.tree@,
            BookKind::Dense => self.dense@,
        }
    }

    /// No runs yet.
    pub fn new() -> (none: Self)
        ensures
            none.expected() is None,
            forall|kind: BookKind| #[trigger] none.times(kind) == Seq::<u128>::empty(),
    {
        Measurements { expected: None, tree: Vec::new(), dense: Vec::new() }
    }

    /// Keeps a run, unless its checksum is not that of the runs before.
    pub fn record(&mut self, kind: BookKind, nanos: u128, checksum: u64) -> (kept: Result<
        (),
        Mismatch,
    >)
        ensures
            match old(self).expected() {
                Some(expected) if expected != checksum => {
                    &&& kept == Err::<(), Mismatch>(Mismatch { expected })
                    &&& *final(self) == *old(self)
                },
                _ => {
                    &&& kept is Ok
                    &&& final(self).expected() == Some(checksum)
                    &&& forall|other: BookKind| #[trigger]
                        final(self).times(other) == (if other == kind {
                            old(self).times(other).push(nanos)
                        } else {
                            old(self).times(other)
                        })
                },
            },
    {
        match self.expected {
            Some(expected) => {
                if checksum != expected {
                    return Err(Mismatch { expected });
                }
            },
            None => {
                self.expected = Some(checksum);
            },
        }
        match kind {
            BookKind::Tree => self.tree.push(nanos),
            BookKind::Dense => self.dense.push(nanos),
        }
        Ok(())
    }

    /// The times of the runs of one book, in the order of the runs.
    pub fn nanos(&self, kind: BookKind) -> (times: &Vec<u128>)
        ensures
            times@ == self.times(kind),
    {
        match kind {
            BookKind::Tree => &self.tree,
            BookKind::Dense => &self.dense,
        }
    }
}

/// Whether a selection measures a book.
pub open spec fn is_selected(selection: Selection, kind: BookKind) -> bool {
    match selection {
        Selection::Both => true,
        Selection::Tree => kind is Tree,
        Selection::Dense => kind is Dense,
    }
}

/// The steps of the run of that number: its books in their order.
pub open spec fn steps_of_run(selection: Selection, run: nat) -> Seq<(nat, BookKind)> {
    order_of_run(selection, run).map_values(|kind: BookKind| (run, kind))
}

/// The steps of the runs from the first to that of number `runs`: the number of the run,
/// and the book to measure.
pub open spec fn schedule(selection: Selection, runs: nat) -> Seq<(nat, BookKind)>
    decreases runs,
{
    if runs == 0 {
        Seq::empty()
    } else {
        schedule(selection, (runs - 1) as nat) + steps_of_run(selection, runs)
    }
}

/// How many steps that many runs have.
pub open spec fn steps_in(selection: Selection, runs: nat) -> nat {
    match selection {
        Selection::Both => 2 * runs,
        _ => runs,
    }
}

proof fn schedule_by_place(selection: Selection, runs: nat, run: nat, place: nat)
    ensures
        schedule(selection, runs).len() == steps_in(selection, runs),
        run < runs && place < steps_in(selection, 1) ==> schedule(
            selection,
            runs,
        )[(steps_in(selection, run) + place) as int] == (
            run + 1,
            order_of_run(selection, run + 1)[place as int],
        ),
    decreases runs,
{
    if runs > 0 {
        schedule_by_place(selection, (runs - 1) as nat, run, place);
    }
}

/// Hands out the steps of the schedule, one at a time.
pub struct Session {
    selection: Selection,
    runs: usize,
    /// How many runs are complete.
    complete: usize,
    /// How many books of the run after them were handed out.
    place: usize,
}

impl Session {
    /// The books that are measured.
    pub closed spec fn selection(&self) -> Selection {
        self.selection
    }

    /// How many runs are measured.
    pub closed spec fn runs(&self) -> usize {
        self.runs
    }

    /// How many steps were handed out so far.
    pub closed spec fn handed_out(&self) -> nat {
        steps_in(self.selection, self.complete as nat) + self.place as nat
    }

    /// All steps of the session.
    pub open spec fn steps(&self) -> Seq<(nat, BookKind)> {
        schedule(self.selection(), self.runs() as nat)
    }

    /// The representation invariant.
    pub closed spec fn wf(&self) -> bool {
        &&& self.complete <= self.runs
        &&& self.place < steps_in(self.selection, 1)
        &&& self.complete == self.runs ==> self.place == 0
    }

    /// A session that has handed out nothing.
    pub fn new(selection: Selection, runs: usize) -> (session: Self)
        ensures
            session.wf(),
            session.selection() == selection,
            session.runs() == runs,
            session.handed_out() == 0,
    {
        Session { selection, runs, complete: 0, place: 0 }
    }

    /// The next step, the number of its run and the book to measure, or `None` once
    /// all steps were handed out.
    pub fn next(&mut self) -> (step: Option<(usize, BookKind)>)
        requires
            old(self).wf(),
        ensures
            final(self).wf(),
            final(self).selection() == old(self).selection(),
            final(self).runs() == old(self).runs(),
            old(self).handed_out() <= old(self).steps().len(),
            match step {
                Some((run, kind)) => {
                    &&& old(self).handed_out() < old(self).steps().len()
                    &&& old(self).steps()[old(self).handed_out() as int] == (run as nat, kind)
                    &&& final(self).handed_out() == old(self).handed_out() + 1
                },
                None => {
                    &&& old(self).handed_out() == old(self).steps().len()
                    &&& final(self).handed_out() == old(self).handed_out()
                },
            },
            step is None <==> old(self).handed_out() == (if old(self).selection() is Both {
                2 * old(self).runs()
            } else {
                old(self).runs() as int
            }),
            step matches Some((run, kind)) ==> match old(self).selection() {
                Selection::Both => {
                    &&& run == old(self).handed_out() / 2 + 1
                    &&& kind is Tree <==> (run + old(self).handed_out() % 2) % 2 == 1
                },
                Selection::Tree => run == old(self).handed_out() + 1 && kind is Tree,
                Selection::Dense => run == old(self).handed_out() + 1 && kind is Dense,
            },
    {
        proof {
            schedule_step_by_step(self.runs as nat, self.handed_out() as int);
            schedule_by_place(
                self.selection,
                self.runs as nat,
                self.complete as nat,
                self.place as nat,
            );
        }
        if self.complete == self.runs {
            return None;
        }
        let run: usize = self.complete + 1;
        let order = self.selection.run_order(run);
        let kind: BookKind = order[self.place];
        if self.place + 1 < order.len() {
            self.place = self.place + 1;
        } else {
            self.place = 0;
            self.complete = run;
        }
        Some((run, kind))
    }
}

/// Every run measures every selected book once, and no other.
pub proof fn run_measures_each_selected_book_once(selection: Selection, run: nat, kind: BookKind)
    ensures
        order_of_run(selection, run).to_multiset().count(kind) == if is_selected(selection, kind) {
            1nat
        } else {
            0
        },
{
    broadcast use group_to_multiset_ensures;

    let order = order_of_run(selection, run);
    let none = Seq::<BookKind>::empty();
    assert(none.to_multiset().len() == 0);
    assert(none.to_multiset().count(kind) == 0);
    match selection {
        Selection::Both => {
            assert(order =~= none.push(order[0]).push(order[1]));
        },
        _ => {
            assert(order =~= none.push(order[0]));
        },
    }
}

/// The books that a session measures, in their order.
pub open spec fn measured(selection: Selection, runs: nat) -> Seq<BookKind> {
    schedule(selection, runs).map_values(|step: (nat, BookKind)| step.1)
}

/// After `runs` runs there are as many times of every selected book, and none of another.
pub proof fn schedule_measures_each_selected_book_every_run(
    selection: Selection,
    runs: nat,
    kind: BookKind,
)
    ensures
        measured(selection, runs).to_multiset().count(kind) == if is_selected(selection, kind) {
            runs
        } else {
            0
        },
    decreases runs,
{
    broadcast use group_to_multiset_ensures;

    if runs > 0 {
        let before = (runs - 1) as nat;
        schedule_measures_each_selected_book_every_run(selection, before, kind);
        run_measures_each_selected_book_once(selection, runs, kind);
        lemma_multiset_commutative(measured(selection, before), order_of_run(selection, runs));
        assert(measured(selection, runs) =~= measured(selection, before) + order_of_run(
            selection,
            runs,
        ));
    } else {
        assert(measured(selection, 0).to_multiset().len() == 0);
    }
}

/// Where both books are measured, they take turns at going first.
pub proof fn books_take_turns_at_leading(run: nat)
    ensures
        order_of_run(Selection::Both, run).first() != order_of_run(
            Selection::Both,
            run + 1,
        ).first(),
        order_of_run(Selection::Both, run).reverse() == order_of_run(Selection::Both, run + 1),
{
    assert(order_of_run(Selection::Both, run).reverse() =~= order_of_run(Selection::Both, run + 1));
}

/// Whatever book the workload runs on, its checksum is that of the runs before.
pub proof fn workload_never_mismatches(earlier: BookKind, later: BookKind)
    ensures
        book_checksum(earlier, workload()) == book_checksum(later, workload()),
{
    runs_agree_on_the_workload();
}

/// Where both books are measured, the odd runs measure the tree one first and the even
/// runs the dense one, and the other one second; where one is, every run measures it alone.
pub proof fn order_goes_by_parity(run: nat)
    ensures
        run % 2 == 1 ==> order_of_run(Selection::Both, run) == seq![BookKind::Tree, BookKind::Dense],
        run % 2 == 0 ==> order_of_run(Selection::Both, run) == seq![BookKind::Dense, BookKind::Tree],
        order_of_run(Selection::Tree, run) == seq![BookKind::Tree],
        order_of_run(Selection::Dense, run) == seq![BookKind::Dense],
{
}

/// The step at every place of a schedule. Of both books there are two steps per run,
/// and the tree one is at a place whose run number and place add up to an odd number, the
/// places of a run counted from zero. Of one there is a step per run.
pub proof fn schedule_step_by_step(runs: nat, at: int)
    ensures
        schedule(Selection::Both, runs).len() == 2 * runs,
        schedule(Selection::Tree, runs).len() == runs,
        schedule(Selection::Dense, runs).len() == runs,
        0 <= at < 2 * runs ==> schedule(Selection::Both, runs)[at] == (
            (at / 2 + 1) as nat,
            if (at / 2 + 1 + at % 2) % 2 == 1 {
                BookKind::Tree
            } else {
                BookKind::Dense
            },
        ),
        0 <= at < runs ==> schedule(Selection::Tree, runs)[at] == (
            (at + 1) as nat,
            BookKind::Tree,
        ),
        0 <= at < runs ==> schedule(Selection::Dense, runs)[at] == (
            (at + 1) as nat,
            BookKind::Dense,
        ),
{
    schedule_by_place(Selection::Tree, runs, at as nat, 0);
    schedule_by_place(Selection::Dense, runs, at as nat, 0);
    schedule_by_place(Selection::Both, runs, (at / 2) as nat, (at % 2) as nat);
}

/// The books that a selection measures.
pub proof fn selection_measures_what_it_names(kind: BookKind)
    ensures
        is_selected(Selection::Both, kind),
        is_selected(Selection::Tree, kind) <==> kind == BookKind::Tree,
        is_selected(Selection::Dense, kind) <==> kind == BookKind::Dense,
{
}

/// The checksum of a kind of book is that of a run on it.
pub proof fn kinds_stand_for_their_books(operations: Seq<Operation>)
    ensures
        book_checksum(BookKind::Tree, operations) == tree_checksum(operations),
        book_checksum(BookKind::Dense, operations) == dense_checksum(operations),
{
}

} // verus!
