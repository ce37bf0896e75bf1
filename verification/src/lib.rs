//! Frame-aware CPU scheduling core.
//!
//! The library owns the per-surface telemetry state ("Buffer"), the
//! mode-aware policy thresholds, the frame/jank analysis state machine,
//! and the single-consumer message step that ties them together.  All
//! time quantities are integer nanoseconds; normalized frame ratios are
//! fixed-point values in parts per billion, so that a frame that exactly
//! meets its budget has the normalized value `NANOS_PER_SEC`.

use vstd::prelude::*;

pub mod buffer;
pub mod config;
pub mod laws;
pub mod looper;
pub mod policy;

verus! {

/// Nanoseconds per second, and also the fixed-point denominator of
/// normalized frame ratios: a ratio of 1.0 is `NANOS_PER_SEC` parts.
pub const NANOS_PER_SEC: u64 = 1_000_000_000;

/// Number of most-recent samples the frame analyzer averages over.
pub const FRAME_WINDOW: usize = 5;

/// Retention capacity of a buffer's frame-time history.
pub const FRAME_HISTORY_CAP: usize = 60;

/// Smoothing divisor of the long-run average frame time: each sample
/// moves the average by one `AVG_SMOOTH`-th of its distance to the
/// sample, so the average reacts slower than the short window.
pub const AVG_SMOOTH: u64 = 10;

} // verus!
