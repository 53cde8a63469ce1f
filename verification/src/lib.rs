//! A path-walking motion generator: a repeating timer drives a piecewise
//! cubic Bezier curve whose segments are regenerated from random draws, and
//! every frame the walker is queried at the timer's fractional progress for a
//! position and a companion hue.
//!
//! All coordinates are fixed-point integers and a timer period is an integer
//! number of ticks, so every evaluation is exact integer arithmetic.

pub mod bezier;
pub mod geometry;
pub mod hue;
pub mod rng;
pub mod timer;
pub mod walker;

use vstd::prelude::*;

verus! {

/// Largest magnitude a curve control coordinate may take. Chosen so that a
/// cubic Bezier numerator over a period of up to `PERIOD_LIMIT` ticks stays
/// well inside `i128`.
pub const COORD_LIMIT: i64 = 1_000_000_000_000_000;

/// Largest timer period, in ticks.
pub const PERIOD_LIMIT: u64 = 1_000_000;

} // verus!
