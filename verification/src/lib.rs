//! Verified cores of two latency experiments.
//!
//! * [`dense_book`] replays one workload against two price books, one on a
//!   search tree and one on a dense array.
//! * [`false_sharing`] has two threads count on counters that share a cache
//!   line or sit on lines of their own.
//!
//! [`arguments`] and [`statistics`] hold what both experiments use.
pub mod arguments;
pub mod dense_book;
pub mod false_sharing;
pub mod statistics;
