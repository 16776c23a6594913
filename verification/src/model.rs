//! Core value types: timestamps, coordinates, recorded tide extrema and
//! bracket pairs.
//!
//! Every quantity is a plain integer: coordinates in microdegrees,
//! tide heights in micrometers above the chart datum, and times in
//! seconds since the Unix epoch together with a fixed display offset.

use vstd::prelude::*;

verus! {

/// Largest tide height magnitude the library accepts, in micrometers
/// (one thousand kilometers: far beyond any physical tide, but small
/// enough that interpolation arithmetic cannot overflow).
pub const MAX_TIDE_MICROMETERS: i64 = 1_000_000_000_000;

/// Latitude bound for a validated coordinate, in microdegrees.
pub const MAX_LAT_MICRODEG: i64 = 90_000_000;

/// Longitude bound for a validated coordinate, in microdegrees.
pub const MAX_LON_MICRODEG: i64 = 180_000_000;

/// Half a turn, in microdegrees: the loose bound on each component of
/// a coordinate the distance arithmetic still accepts.
pub const HALF_TURN_MICRODEG: i64 = 180_000_000;

/// A moment in time: seconds since the Unix epoch, together with the
/// fixed UTC offset used when the moment is displayed. The offset never
/// takes part in comparisons; the instant alone orders timestamps.
#[derive(Clone, Copy, PartialEq, Eq, Structural, Debug)]
pub struct Timestamp {
    pub seconds: i64,
    pub offset_seconds: i32,
}

impl Timestamp {
    /// Strict instant order, ignoring the display offset.
    pub fn is_before(&self, other: Timestamp) -> (r: bool)
        ensures
            r == (self.seconds < other.seconds),
    {
        self.seconds < other.seconds
    }

    /// The same instant, displayed at another fixed offset.
    pub fn with_offset(&self, offset_seconds: i32) -> (r: Timestamp)
        ensures
            r.seconds == self.seconds,
            r.offset_seconds == offset_seconds,
    {
        Timestamp { seconds: self.seconds, offset_seconds }
    }
}

/// A single recorded tide extremum: a height relative to the chart
/// datum and the moment it occurs.
#[derive(Clone, Copy, PartialEq, Eq, Structural, Debug)]
pub struct TidePrediction {
    pub tide_micrometers: i64,
    pub time: Timestamp,
}

impl TidePrediction {
    /// Whether this extremum occurs strictly before the given moment.
    pub fn is_before(&self, time: Timestamp) -> (r: bool)
        ensures
            r == (self.time.seconds < time.seconds),
    {
        self.time.is_before(time)
    }

    /// Move the display offset; the instant and height stay.
    pub fn set_offset(&mut self, offset_seconds: i32)
        ensures
            final(self).tide_micrometers == old(self).tide_micrometers,
            final(self).time.seconds == old(self).time.seconds,
            final(self).time.offset_seconds == offset_seconds,
    {
        self.time = self.time.with_offset(offset_seconds);
    }

    /// Height within the bound the interpolation arithmetic needs.
    pub open spec fn height_in_range(&self) -> bool {
        -MAX_TIDE_MICROMETERS <= self.tide_micrometers <= MAX_TIDE_MICROMETERS
    }
}

/// The label a recorded extremum carries when the pair around a query
/// is classified: the higher end of a bracket is the high tide.
#[derive(Clone, Copy, PartialEq, Eq, Structural, Debug)]
pub enum TideType {
    High,
    Low,
}

/// The two recorded extrema immediately around a query time: `prev` at
/// or before it, `next` at or after it.
#[derive(Clone, Copy, PartialEq, Eq, Structural, Debug)]
pub struct TidePredictionPair {
    pub next: TidePrediction,
    pub prev: TidePrediction,
}

impl TidePredictionPair {
    /// A well-formed bracket never runs backwards in time.
    pub open spec fn wf(&self) -> bool {
        self.prev.time.seconds <= self.next.time.seconds
    }

    /// The bracket rises towards its `next` end.
    pub open spec fn spec_coming_in(&self) -> bool {
        self.next.tide_micrometers > self.prev.tide_micrometers
    }

    /// The label the bracket's earlier extremum carries.
    pub open spec fn spec_prev_tide_type(&self) -> TideType {
        if self.spec_coming_in() {
            TideType::Low
        } else {
            TideType::High
        }
    }

    /// The label the bracket's later extremum carries.
    pub open spec fn spec_next_tide_type(&self) -> TideType {
        if self.spec_coming_in() {
            TideType::High
        } else {
            TideType::Low
        }
    }

    /// The tide is coming in when the bracket rises towards `next`.
    pub fn tide_is_coming_in(&self) -> (r: bool)
        ensures
            r == self.spec_coming_in(),
    {
        self.next.tide_micrometers > self.prev.tide_micrometers
    }

    /// Label of the extremum the bracket came from.
    pub fn prev_tide_type(&self) -> (r: TideType)
        ensures
            r == self.spec_prev_tide_type(),
    {
        if self.tide_is_coming_in() {
            TideType::Low
        } else {
            TideType::High
        }
    }

    /// Label of the extremum the bracket runs towards.
    pub fn next_tide_type(&self) -> (r: TideType)
        ensures
            r == self.spec_next_tide_type(),
    {
        if self.tide_is_coming_in() {
            TideType::High
        } else {
            TideType::Low
        }
    }

    /// Move both ends to another display offset; instants and heights stay.
    pub fn set_offset(&mut self, offset_seconds: i32) -> (r: TidePredictionPair)
        ensures
            final(self).prev.tide_micrometers == old(self).prev.tide_micrometers,
            final(self).next.tide_micrometers == old(self).next.tide_micrometers,
            final(self).prev.time.seconds == old(self).prev.time.seconds,
            final(self).next.time.seconds == old(self).next.time.seconds,
            final(self).prev.time.offset_seconds == offset_seconds,
            final(self).next.time.offset_seconds == offset_seconds,
            r == *final(self),
    {
        self.next.set_offset(offset_seconds);
        self.prev.set_offset(offset_seconds);
        *self
    }
}

/// The rising/falling flag and the high/low labels always agree: the
/// next extremum is labelled the high tide exactly when the bracket
/// rises, the two ends never share a label, and a rising bracket comes
/// from a low tide.
pub proof fn lemma_tide_labels_flip(pair: TidePredictionPair)
    ensures
        pair.spec_coming_in() <==> pair.spec_next_tide_type() == TideType::High,
        pair.spec_coming_in() <==> pair.spec_prev_tide_type() == TideType::Low,
        pair.spec_prev_tide_type() != pair.spec_next_tide_type(),
{
}

/// A geographic point, in microdegrees of latitude and longitude.
#[derive(Clone, Copy, PartialEq, Eq, Structural, Debug)]
pub struct Coordinates {
    pub lat_microdeg: i64,
    pub lon_microdeg: i64,
}

impl Coordinates {
    /// A validated coordinate: latitude within [-90, 90] degrees and
    /// longitude within [-180, 180] degrees.
    pub open spec fn valid(&self) -> bool {
        -MAX_LAT_MICRODEG <= self.lat_microdeg <= MAX_LAT_MICRODEG
            && -MAX_LON_MICRODEG <= self.lon_microdeg <= MAX_LON_MICRODEG
    }

    /// The looser domain on which the distance arithmetic is defined:
    /// both components within half a turn of zero.
    pub open spec fn in_domain(&self) -> bool {
        -HALF_TURN_MICRODEG <= self.lat_microdeg <= HALF_TURN_MICRODEG
            && -HALF_TURN_MICRODEG <= self.lon_microdeg <= HALF_TURN_MICRODEG
    }

    /// Validating constructor: accepts exactly the points on the globe.
    pub fn new(lat_microdeg: i64, lon_microdeg: i64) -> (r: Option<Coordinates>)
        ensures
            match r {
                Some(c) => c.lat_microdeg == lat_microdeg && c.lon_microdeg == lon_microdeg
                    && c.valid(),
                None => !(Coordinates { lat_microdeg, lon_microdeg }).valid(),
            },
    {
        let c = Coordinates { lat_microdeg, lon_microdeg };
        if -MAX_LAT_MICRODEG <= lat_microdeg && lat_microdeg <= MAX_LAT_MICRODEG
            && -MAX_LON_MICRODEG <= lon_microdeg && lon_microdeg <= MAX_LON_MICRODEG {
            Some(c)
        } else {
            None
        }
    }

    /// Both components as fixed-point radians.
    pub fn to_radians(&self) -> (r: (i128, i128))
        requires
            self.in_domain(),
        ensures
            r.0 == crate::trig::spec_deg_to_rad(self.lat_microdeg as int),
            r.1 == crate::trig::spec_deg_to_rad(self.lon_microdeg as int),
            -crate::trig::PI_FP <= r.0 <= crate::trig::PI_FP,
            -crate::trig::PI_FP <= r.1 <= crate::trig::PI_FP,
    {
        (crate::trig::deg_to_rad(self.lat_microdeg), crate::trig::deg_to_rad(self.lon_microdeg))
    }
}

} // verus!
