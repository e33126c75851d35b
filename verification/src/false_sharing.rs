//! Two threads counting on one cache line or on lines of their own.
pub mod config;
pub mod counting;
pub mod protocol;
pub mod session;
