//! Timing a replay: the clock is read before the first operation and after the last.
//!
//! What the clock shows is open, but not when it is read. A contract here says of a
//! value which call it came from, and of that call with which arguments.
use crate::dense_book::book::Book;
use crate::dense_book::replay::replay;
use crate::dense_book::workload::Operation;
use std::hint::black_box;
use std::time::{Duration, Instant};
use vstd::prelude::*;

verus! {

use crate::dense_book::replay::{checksum, content_replayed, levels_after, updates_within};

/// A book with a running clock.
pub struct TimedBook<B: Book> {
    book: B,
    started: Instant,
}

impl<B: Book> TimedBook<B> {
    /// The book.
    pub closed spec fn book(&self) -> B {
        self.book
    }

    /// The reading with which the clock started.
    pub closed spec fn started(&self) -> Instant {
        self.started
    }

    /// Starts the clock, and keeps the book as it is.
    pub fn start(book: B) -> (ready: Self)
        ensures
            ready.book() == book,
            call_ensures(Instant::now, (), ready.started()),
    {
        let started = Instant::now();
        TimedBook { book, started }
    }

    /// Replays `operations` while the clock runs on.
    pub fn replay(self, operations: &[Operation]) -> (played: (Self, u64))
        requires
            self.book().wf(),
            updates_within(self.book().addressable(), operations@),
        ensures
            played.0.started() == self.started(),
            played.0.book().wf(),
            played.0.book().content() == content_replayed::<B>(self.book().content(), operations@),
            played.0.book().levels() == levels_after(
                self.book().levels(),
                self.book().covered(),
                operations@,
            ),
            played.1 == checksum(self.book().levels(), self.book().covered(), operations@),
    {
        let mut book = self.book;
        let sum: u64 = replay(&mut book, operations);

        black_box(&book);
        black_box(sum);
        (TimedBook { book, started: self.started }, sum)
    }

    /// Stops the clock: the time since it was started.
    pub fn stop(self) -> (elapsed: Duration)
        ensures
            call_ensures(Instant::elapsed, (&self.started(),), elapsed),
    {
        self.started.elapsed()
    }
}

/// The measured time spans the replay: where starting the clock on `book`, replaying and
/// stopping the clock gave those values, nothing was replayed when the clock was first
/// read, everything was when it was read again, and the time is what passed since the
/// first reading.
pub proof fn clock_spans_the_replay<B: Book>(
    book: B,
    operations: &[Operation],
    ready: TimedBook<B>,
    played: TimedBook<B>,
    sum: u64,
    elapsed: Duration,
)
    requires
        call_ensures(TimedBook::<B>::start, (book,), ready),
        call_ensures(TimedBook::<B>::replay, (ready, operations), (played, sum)),
        call_ensures(TimedBook::<B>::stop, (played,), elapsed),
    ensures
        ready.book() == book,
        played.book().content() == content_replayed::<B>(book.content(), operations@),
        played.book().levels() == levels_after(book.levels(), book.covered(), operations@),
        sum == checksum(book.levels(), book.covered(), operations@),
        played.started() == ready.started(),
        call_ensures(Instant::now, (), ready.started()),
        call_ensures(Instant::elapsed, (&ready.started(),), elapsed),
{
}

} // verus!
