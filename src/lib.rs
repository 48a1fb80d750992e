//! Streaming sentiment aggregation: per-item sentiment scores folded into a
//! running total and averaged over a bounded sample.
//!
//! Scores are held in fixed point, in millionths of a point (see
//! `score::UNITS_PER_POINT`), so that accumulation is exact and averaging
//! rounds toward zero in one documented way. A sample with bound `k` takes up
//! to `k + 1` items and divides by the number of items actually taken; the
//! average of no items is zero.

pub mod score;
pub mod aggregate;
pub mod sampler;
pub mod laws;
pub mod args;
