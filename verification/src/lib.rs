//! A parallel-histogram benchmarking library.
//!
//! The library compares two concurrency-control strategies for building a
//! byte histogram: a single shared array of atomic counters, and per-worker
//! private arrays combined by an explicit reduction. Around the two
//! strategies it provides deterministic input generation, work partitioning,
//! optional thread-to-core affinity, a correctness verifier, and
//! fixed-point speedup/efficiency metrics.
//!
//! The stages connect one way: `rng` and `generate` produce the sample
//! sequence, `partition` slices it into per-worker spans, `aggregate` runs
//! one of the two strategies over the spans through the worker pool in
//! `parallel`, `histogram` holds the counting specifications and the
//! sequential building blocks both strategies share, `config` validates a
//! run request, `metrics` scores a run against its sweep's baseline, and
//! `run` drives one configuration end to end.

pub mod aggregate;
pub mod config;
pub mod generate;
pub mod histogram;
pub mod metrics;
pub mod parallel;
pub mod partition;
pub mod rng;
pub mod run;

use vstd::prelude::*;

verus! {

/// Number of histogram bins: one per possible byte value.
pub const BINS: usize = 256;

} // verus!
