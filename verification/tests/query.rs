use chrono::offset::FixedOffset;
use chrono::offset::TimeZone;
use wtiirn::find::current_tide_status;
use wtiirn::model::Coordinates;
use wtiirn::model::TidePrediction;
use wtiirn::model::TidePredictionPair;
use wtiirn::model::TideType;
use wtiirn::model::Timestamp;
use wtiirn::query::default_reference_point;
use wtiirn::query::tide_query;
use wtiirn::stations::StationCatalogue;

fn pst_time(y: i32, mo: u32, d: u32, h: u32, mi: u32, s: u32) -> Timestamp {
    let pst = FixedOffset::west_opt(8 * 3600).unwrap();
    let t = pst.with_ymd_and_hms(y, mo, d, h, mi, s).unwrap();
    Timestamp {
        seconds: t.timestamp(),
        offset_seconds: -8 * 3600,
    }
}

fn prediction(meters: f64, time: Timestamp) -> TidePrediction {
    TidePrediction {
        tide_micrometers: (meters * 1_000_000.0).round() as i64,
        time,
    }
}

#[test]
fn a_rising_bracket_means_the_tide_is_coming_in() {
    let pair = TidePredictionPair {
        prev: prediction(1.0, pst_time(2019, 05, 14, 0, 0, 0)),
        next: prediction(2.0, pst_time(2019, 05, 14, 1, 0, 0)),
    };
    assert!(pair.tide_is_coming_in());
    assert_eq!(pair.prev_tide_type(), TideType::Low);
    assert_eq!(pair.next_tide_type(), TideType::High);

    let falling = TidePredictionPair {
        prev: pair.next,
        next: prediction(0.5, pst_time(2019, 05, 14, 7, 0, 0)),
    };
    assert!(!falling.tide_is_coming_in());
    assert_eq!(falling.prev_tide_type(), TideType::High);
    assert_eq!(falling.next_tide_type(), TideType::Low);
}

#[test]
fn the_status_reports_level_direction_and_delta() {
    let pair = TidePredictionPair {
        prev: prediction(1.0, pst_time(2019, 05, 14, 0, 0, 0)),
        next: prediction(2.0, pst_time(2019, 05, 14, 1, 0, 0)),
    };
    let halfway = pst_time(2019, 05, 14, 0, 30, 0);
    let status = current_tide_status(&pair, &halfway).unwrap();
    assert!((status.level_micrometers - 1_500_000).abs() <= 5);
    assert!(status.coming_in);
    assert!((status.delta_micrometers - 500_000).abs() <= 5);
    assert_eq!(
        status.delta_micrometers,
        pair.next.tide_micrometers - status.level_micrometers
    );
}

#[test]
fn a_full_query_picks_the_station_and_interpolates() {
    let mut catalogue = StationCatalogue::empty();
    catalogue.add(
        "Point Atkinson",
        &Coordinates {
            lat_microdeg: 49_336_000,
            lon_microdeg: -123_262_000,
        },
        &vec![
            prediction(1.0, pst_time(2019, 05, 14, 0, 0, 0)),
            prediction(2.0, pst_time(2019, 05, 14, 1, 0, 0)),
        ],
    );
    catalogue.add(
        "Port Lavaca",
        &Coordinates {
            lat_microdeg: 28_640_600,
            lon_microdeg: -96_609_800,
        },
        &vec![],
    );
    let yvr = Coordinates {
        lat_microdeg: 49_194_722,
        lon_microdeg: -123_183_889,
    };
    let halfway = pst_time(2019, 05, 14, 0, 30, 0);
    let report = tide_query(&catalogue, Some(yvr), halfway).unwrap();
    assert_eq!(catalogue.station_at(report.station_index).name, "Point Atkinson");
    let distance = report.distance_mm.unwrap();
    // Roughly 17 km between the query point and Point Atkinson.
    assert!(10_000_000 < distance && distance < 25_000_000);
    let status = report.status.unwrap();
    assert!((status.level_micrometers - 1_500_000).abs() <= 5);
    assert!(status.coming_in);
}

#[test]
fn a_query_without_location_uses_the_default_point_and_reports_no_distance() {
    let mut catalogue = StationCatalogue::empty();
    catalogue.add(
        "Point Atkinson",
        &Coordinates {
            lat_microdeg: 49_336_000,
            lon_microdeg: -123_262_000,
        },
        &vec![],
    );
    let now = pst_time(2019, 05, 14, 0, 30, 0);
    let report = tide_query(&catalogue, None, now).unwrap();
    assert_eq!(report.distance_mm, None);
    assert!(report.pair.is_none());
    assert!(report.status.is_none());
    let home = default_reference_point();
    assert!(home.lat_microdeg.abs() <= 90_000_000);
    assert!(home.lon_microdeg.abs() <= 180_000_000);
}

#[test]
fn a_query_outside_the_series_reports_no_tide_information() {
    let mut catalogue = StationCatalogue::empty();
    catalogue.add(
        "Point Atkinson",
        &Coordinates {
            lat_microdeg: 49_336_000,
            lon_microdeg: -123_262_000,
        },
        &vec![
            prediction(1.0, pst_time(2019, 05, 14, 0, 0, 0)),
            prediction(2.0, pst_time(2019, 05, 14, 1, 0, 0)),
        ],
    );
    let too_late = pst_time(2019, 06, 01, 0, 0, 0);
    let report = tide_query(&catalogue, None, too_late).unwrap();
    assert!(report.pair.is_none());
    assert!(report.status.is_none());
}

#[test]
fn set_offset_moves_the_display_offset_and_keeps_the_instant() {
    let mut pair = TidePredictionPair {
        prev: prediction(1.0, pst_time(2019, 05, 14, 0, 0, 0)),
        next: prediction(2.0, pst_time(2019, 05, 14, 1, 0, 0)),
    };
    let instant_prev = pair.prev.time.seconds;
    let instant_next = pair.next.time.seconds;
    let moved = pair.set_offset(0);
    assert_eq!(moved, pair);
    assert_eq!(pair.prev.time.offset_seconds, 0);
    assert_eq!(pair.next.time.offset_seconds, 0);
    assert_eq!(pair.prev.time.seconds, instant_prev);
    assert_eq!(pair.next.time.seconds, instant_next);
    assert_eq!(pair.prev.tide_micrometers, 1_000_000);
    assert_eq!(pair.next.tide_micrometers, 2_000_000);
}
