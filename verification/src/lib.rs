//! Workload-generation and measurement core of a key-value storage benchmark.
//!
//! The crate models the keyspace (deterministic key construction, optional
//! hash scrambling, zipfian hot-key selection), generates values, drives the
//! per-workload operation mixes against an instrumented store, and computes
//! rate and amplification metrics from the store's counters together with
//! externally sampled disk statistics.

pub mod config;
pub mod counters;
pub mod digits;
pub mod draws;
pub mod keys;
pub mod metrics;
pub mod store;
pub mod values;
pub mod workload;
