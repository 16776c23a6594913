use wtiirn::gcd::great_circle_distance;
use wtiirn::gcd::check_acos_domain;
use wtiirn::model::Coordinates;
use wtiirn::TideError;

const EARTH_RADIUS_METERS: f64 = 6_371_000.0;

fn earth_circ() -> f64 {
    2.0 * std::f64::consts::PI * EARTH_RADIUS_METERS
}

fn acceptable_err() -> f64 {
    0.33
}

fn distance_meters(p1: &Coordinates, p2: &Coordinates) -> f64 {
    let mm = great_circle_distance(p1, p2).expect("distance should be defined");
    (mm as f64) / 1000.0
}

#[test]
fn distance_to_self_is_zero() {
    let p1 = Coordinates {
        lat_microdeg: 100_000_000,
        lon_microdeg: 45_000_000,
    };
    assert!(distance_meters(&p1, &p1) < acceptable_err());
}

#[test]
fn distance_from_equator_to_pole_is_one_quarter_circumference() {
    let p1 = Coordinates {
        lat_microdeg: 0,
        lon_microdeg: 0,
    };
    let p2 = Coordinates {
        lat_microdeg: 90_000_000,
        lon_microdeg: 0,
    };
    let dist = distance_meters(&p1, &p2);
    assert!((dist - earth_circ() / 4.0).abs() < acceptable_err());
}

#[test]
fn distance_from_pole_to_pole_is_one_half_circumference() {
    let p1 = Coordinates {
        lat_microdeg: -90_000_000,
        lon_microdeg: 0,
    };
    let p2 = Coordinates {
        lat_microdeg: 90_000_000,
        lon_microdeg: 0,
    };
    let dist = distance_meters(&p1, &p2);
    assert!((dist - earth_circ() / 2.0).abs() < acceptable_err());
}

#[test]
fn quarter_circumference_centered_on_equator() {
    // Check that the distance from 45 N to 45 S is a quarter circumference.
    let p1 = Coordinates {
        lat_microdeg: 45_000_000,
        lon_microdeg: 0,
    };
    let p2 = Coordinates {
        lat_microdeg: -45_000_000,
        lon_microdeg: 0,
    };
    let dist = distance_meters(&p1, &p2);
    assert!((dist - earth_circ() / 4.0).abs() < acceptable_err());
}

#[test]
fn two_half_turns() {
    // Check a point halfway around the world.
    let p1 = Coordinates {
        lat_microdeg: 45_000_000,
        lon_microdeg: 0,
    };
    let p2 = Coordinates {
        lat_microdeg: -45_000_000,
        lon_microdeg: 180_000_000,
    };
    let dist = distance_meters(&p1, &p2);
    assert!((dist - earth_circ() / 2.0).abs() < acceptable_err());
}

#[test]
fn distance_is_symmetric_and_positive() {
    let p1 = Coordinates {
        lat_microdeg: 49_336_000,
        lon_microdeg: -123_262_000,
    };
    let p2 = Coordinates {
        lat_microdeg: 28_640_600,
        lon_microdeg: -96_609_800,
    };
    let d12 = great_circle_distance(&p1, &p2).unwrap();
    let d21 = great_circle_distance(&p2, &p1).unwrap();
    assert_eq!(d12, d21);
    assert!(d12 > 0);
}

#[test]
fn acos_domain_accepts_and_clamps_near_the_boundary() {
    let scale: i128 = wtiirn::SCALE;
    assert_eq!(check_acos_domain(scale), Ok(scale));
    assert_eq!(check_acos_domain(-scale), Ok(-scale));
    assert_eq!(check_acos_domain(scale + 1), Ok(scale - 1));
    assert_eq!(check_acos_domain(-scale - 1), Ok(-scale + 1));
}

#[test]
fn acos_domain_rejects_a_genuine_defect() {
    let scale: i128 = wtiirn::SCALE;
    assert_eq!(
        check_acos_domain(2 * scale),
        Err(TideError::CosineOutOfDomain)
    );
    assert_eq!(
        check_acos_domain(-2 * scale),
        Err(TideError::CosineOutOfDomain)
    );
}
