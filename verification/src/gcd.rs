//! Great-circle distance between two points on a spherical Earth.
//!
//! The spherical law of cosines, carried out in fixed point: convert
//! both points to radians, combine their sines and cosines into the
//! cosine of the central angle, clamp it into the arc-cosine domain
//! (tolerating only tiny numerical overshoot), and scale the angle by
//! the Earth radius. A value further outside the domain is a defect
//! and is reported as an error, never silently clamped.

use vstd::prelude::*;
use crate::SCALE;
use crate::TideError;
use crate::model::Coordinates;

verus! {

/// Radius of the spherical Earth model, in millimeters.
pub const EARTH_RADIUS_MM: i64 = 6_371_000_000;

/// Any distance on that sphere fits below half its circumference, in
/// millimeters.
pub const MAX_DISTANCE_MM: i64 = 21_000_000_000;

/// How far outside [-1, 1] the central-angle cosine may stray and
/// still count as floating noise: 1e-11, in fixed point.
pub const ACOS_DOMAIN_TOLERANCE: i128 = 1_000_000;

/// The cosine of the central angle between two points, before any
/// domain correction.
pub open spec fn spec_cos_central(a: Coordinates, b: Coordinates) -> int {
    let lat1 = crate::trig::spec_deg_to_rad(a.lat_microdeg as int);
    let lon1 = crate::trig::spec_deg_to_rad(a.lon_microdeg as int);
    let lat2 = crate::trig::spec_deg_to_rad(b.lat_microdeg as int);
    let lon2 = crate::trig::spec_deg_to_rad(b.lon_microdeg as int);
    let dlon = if lon1 >= lon2 { lon1 - lon2 } else { lon2 - lon1 };
    crate::trig::spec_mul_unit(crate::trig::spec_sin(lat1), crate::trig::spec_sin(lat2))
        + crate::trig::spec_mul_unit(
            crate::trig::spec_mul_unit(crate::trig::spec_cos(lat1), crate::trig::spec_cos(lat2)),
            crate::trig::spec_cos(dlon),
        )
}

/// Whether a central-angle cosine is close enough to [-1, 1] to accept.
pub open spec fn spec_acos_domain_ok(x: int) -> bool {
    -(SCALE as int) - ACOS_DOMAIN_TOLERANCE < x < SCALE + ACOS_DOMAIN_TOLERANCE
}

/// An accepted central-angle cosine, nudged just inside [-1, 1].
pub open spec fn spec_acos_clamp(x: int) -> int {
    if -SCALE <= x <= SCALE {
        x
    } else if x < -SCALE {
        -SCALE + 1
    } else {
        SCALE - 1
    }
}

/// The great-circle distance in millimeters, when the central-angle
/// cosine is accepted.
pub open spec fn spec_distance_mm(a: Coordinates, b: Coordinates) -> int {
    crate::trig::spec_acos(spec_acos_clamp(spec_cos_central(a, b))) * (EARTH_RADIUS_MM as int)
        / (SCALE as int)
}

/// Accept a value as an arc-cosine argument, tolerating only tiny
/// numerical overshoot past [-1, 1]; anything further out is a defect.
pub fn check_acos_domain(x: i128) -> (r: Result<i128, TideError>)
    requires
        -4 * SCALE <= x <= 4 * SCALE,
    ensures
        spec_acos_domain_ok(x as int) ==> r == Ok::<i128, TideError>(spec_acos_clamp(x as int) as i128),
        !spec_acos_domain_ok(x as int) ==> r == Err::<i128, TideError>(TideError::CosineOutOfDomain),
        r matches Ok(y) ==> -SCALE <= y <= SCALE,
{
    if -SCALE <= x && x <= SCALE {
        Ok(x)
    } else if x < -SCALE && -SCALE - ACOS_DOMAIN_TOLERANCE < x {
        Ok(-SCALE + 1)
    } else if x > SCALE && x < SCALE + ACOS_DOMAIN_TOLERANCE {
        Ok(SCALE - 1)
    } else {
        Err(TideError::CosineOutOfDomain)
    }
}

/// Great-circle distance between two points, in millimeters.
///
/// The distance is never negative, and an error comes exactly when the
/// combined cosine of the central angle leaves its domain by more than
/// the tolerance, since silently returning a wrong number would be
/// worse than refusing to answer.
pub fn great_circle_distance(p1: &Coordinates, p2: &Coordinates) -> (r: Result<i64, TideError>)
    requires
        p1.in_domain(),
        p2.in_domain(),
    ensures
        spec_acos_domain_ok(spec_cos_central(*p1, *p2)) ==> r == Ok::<i64, TideError>(
            spec_distance_mm(*p1, *p2) as i64),
        !spec_acos_domain_ok(spec_cos_central(*p1, *p2)) ==> r == Err::<i64, TideError>(
            TideError::CosineOutOfDomain),
        r matches Ok(d) ==> 0 <= d <= MAX_DISTANCE_MM && d == spec_distance_mm(*p1, *p2),
{
    let (lat1, lon1) = p1.to_radians();
    let (lat2, lon2) = p2.to_radians();
    let dlon: i128 = if lon1 >= lon2 { lon1 - lon2 } else { lon2 - lon1 };
    let s1 = crate::trig::sin_fp(lat1);
    let s2 = crate::trig::sin_fp(lat2);
    let c1 = crate::trig::cos_fp(lat1);
    let c2 = crate::trig::cos_fp(lat2);
    let cd = crate::trig::cos_fp(dlon);
    let cc: i128 = crate::trig::mul_unit(s1, s2)
        + crate::trig::mul_unit(crate::trig::mul_unit(c1, c2), cd);
    match check_acos_domain(cc) {
        Err(e) => Err(e),
        Ok(y) => {
            let theta = crate::trig::acos_fp(y);
            proof {
                lemma_angle_to_distance_bound(theta as int);
            }
            let d: i128 = theta * (EARTH_RADIUS_MM as i128) / SCALE;
            Ok(d as i64)
        },
    }
}

/// The central angle does not depend on the order of the two points.
pub proof fn lemma_cos_central_symmetric(a: Coordinates, b: Coordinates)
    ensures
        spec_cos_central(a, b) == spec_cos_central(b, a),
{
    let lat1 = crate::trig::spec_deg_to_rad(a.lat_microdeg as int);
    let lon1 = crate::trig::spec_deg_to_rad(a.lon_microdeg as int);
    let lat2 = crate::trig::spec_deg_to_rad(b.lat_microdeg as int);
    let lon2 = crate::trig::spec_deg_to_rad(b.lon_microdeg as int);
    let dab = if lon1 >= lon2 { lon1 - lon2 } else { lon2 - lon1 };
    let dba = if lon2 >= lon1 { lon2 - lon1 } else { lon1 - lon2 };
    assert(dab == dba);
    lemma_mul_unit_symmetric(crate::trig::spec_sin(lat1), crate::trig::spec_sin(lat2));
    lemma_mul_unit_symmetric(crate::trig::spec_cos(lat1), crate::trig::spec_cos(lat2));
}

/// The fixed-point unit product commutes.
proof fn lemma_mul_unit_symmetric(x: int, y: int)
    ensures
        crate::trig::spec_mul_unit(x, y) == crate::trig::spec_mul_unit(y, x),
{
    let mx = if x < 0 { -x } else { x };
    let my = if y < 0 { -y } else { y };
    assert(mx * my == my * mx) by (nonlinear_arith);
}

/// An angle within [0, pi], scaled by the Earth radius, stays within
/// half the circumference.
proof fn lemma_angle_to_distance_bound(theta: int)
    requires
        0 <= theta <= crate::trig::PI_FP,
    ensures
        0 <= theta * (EARTH_RADIUS_MM as int) / (SCALE as int) <= MAX_DISTANCE_MM,
{
    assert((crate::trig::PI_FP as int) * (EARTH_RADIUS_MM as int)
        <= (MAX_DISTANCE_MM as int) * (SCALE as int));
    crate::trig::lemma_nonneg_div_bound(theta * (EARTH_RADIUS_MM as int),
        (MAX_DISTANCE_MM as int) * (SCALE as int), SCALE as int, SCALE as int);
    vstd::arithmetic::div_mod::lemma_div_multiples_vanish(MAX_DISTANCE_MM as int, SCALE as int);
}

} // verus!
