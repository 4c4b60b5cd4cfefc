//! Units of length and time, and the largest coordinates that the library works with.
//!
//! Lengths are whole numbers of thousandths of a pixel, times whole numbers of
//! microseconds. A velocity is a displacement per simulation step.

use vstd::prelude::*;

verus! {

/// Length units in one pixel.
pub const UNITS_PER_PIXEL: i64 = 1000;

/// Time units in one second.
pub const MICROS_PER_SECOND: u64 = 1_000_000;

/// Largest playfield extent, rectangle coordinate, rectangle extent, radius
/// and velocity component, in length units: a million pixels.
pub const MAX_EXTENT: i64 = 1_000_000_000;

} // verus!
