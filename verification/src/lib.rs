//! Tidal state for a geographic point and moment in time.
//!
//! The library selects the monitoring station nearest a query point,
//! finds the pair of recorded tide extrema that bracket a query
//! timestamp, and interpolates an instantaneous tide height between
//! them with a half-cosine blend. All quantities are fixed-point
//! integers: coordinates in microdegrees, heights in micrometers,
//! times in seconds, angles in units of 1e-17 radians.

use vstd::prelude::*;

pub mod find;
pub mod gcd;
pub mod model;
pub mod query;
pub mod stations;
pub mod trig;

verus! {

/// Number of fixed-point units in 1.0 (angles and unit-interval values).
pub const SCALE: i128 = 100_000_000_000_000_000;

/// Defect-class numeric failures. These indicate a geometry bug or
/// malformed upstream data, and are kept apart from the ordinary
/// "no tide information" absence, which is an `Option`, not an error.
#[derive(Clone, Copy, PartialEq, Eq, Structural, Debug)]
pub enum TideError {
    /// The law-of-cosines intermediate left the arc-cosine domain by
    /// more than the floating-tolerance allowance.
    CosineOutOfDomain,
    /// A bracket whose two extrema share one timestamp has no width to
    /// interpolate over.
    ZeroWidthBracket,
}

} // verus!
