//! A metrics-collection library for a key-value store exporter.
//!
//! The library polls no network itself: it parses the line-oriented status
//! reply of a store instance into typed, labeled metric updates, and applies
//! them to a registry of labeled series that an exposition endpoint can
//! snapshot at any time.  Metric values are held in fixed-point form, as a
//! signed count of millionths, so that the unit conversions the catalog calls
//! for are exact.

pub mod catalog;
pub mod collector;
pub mod config;
pub mod connection;
pub mod laws;
pub mod num;
pub mod parser;
pub mod registry;
pub mod render;
pub mod scheduler;
pub mod text;

use vstd::prelude::*;

verus! {

/// The number of millionths in one whole unit.
pub const MICROS_PER_UNIT: i128 = 1_000_000;

/// Saturating addition on metric values: counters accumulate and are capped
/// at the largest representable value rather than wrapping.
pub open spec fn spec_sat_add(a: int, b: int) -> int {
    if a + b > i128::MAX {
        i128::MAX as int
    } else {
        a + b
    }
}

/// Adds a non-negative delta to a value, saturating at the top of the range.
pub fn sat_add(a: i128, b: i128) -> (r: i128)
    requires
        b >= 0,
    ensures
        r == spec_sat_add(a as int, b as int),
{
    if a <= i128::MAX - b {
        a + b
    } else {
        i128::MAX
    }
}

} // verus!
