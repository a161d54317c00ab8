//! A verified core for a periodic container-metrics collector, together
//! with the structured-logging support its programs use and the data of a
//! small weather front end.
//!
//! The collector inventories containers, selects a subset by glob filters,
//! condenses per-container usage snapshots, converts cumulative runtime
//! counters into per-cycle deltas (detecting counter resets), and prunes
//! per-container state when containers disappear. Everything that computes
//! or decides lives here, verified; the composing program supplies the
//! container runtime, the metrics sink, the log sink and the clock.

pub mod config;
pub mod cycle;
pub mod delta;
pub mod docker;
pub mod filter;
pub mod formatter;
pub mod logger;
pub mod logging;
pub mod pattern;
pub mod strutil;
pub mod weather;
