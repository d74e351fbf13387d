//! Verified core of a parallel HTTP health checker.
//!
//! The library holds the logic of a one-shot probing run: configuration
//! parsing and validation, the per-URL retry policy, the work queue and
//! result sink that the worker pool shares, the deterministic run model,
//! and the report rendering. The surrounding binary performs the actual
//! network calls, sleeps and file writes, and feeds their results back
//! into these verified functions as plain values.

pub mod outcome;
pub mod probe;
pub mod queue;
pub mod sink;
pub mod run;
pub mod config;
pub mod report;
