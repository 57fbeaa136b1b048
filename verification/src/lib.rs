//! Core logic of a terminal dashboard that charts per-interface network
//! throughput: rate derivation from cumulative counters, an append-only
//! time-series store, window/range selection for axis scaling, deterministic
//! interface colors, human-readable labels, and input handling.
//!
//! Timestamps are milliseconds since process start; rates are bytes per
//! second. The series store keeps every sample for the process lifetime:
//! growth is unbounded by design, bounded only by the run's duration.

pub mod color;
pub mod input;
pub mod labels;
pub mod numeric_formatter;
pub mod order;
pub mod sampler;
pub mod series;
pub mod shared;
pub mod window;
