//! Two price books replaying one deterministic workload.
pub mod agreement;
pub mod behaviour;
pub mod book;
pub mod clock;
pub mod config;
pub mod replay;
pub mod session;
pub mod stopwatch;
pub mod workload;
