use chrono::offset::FixedOffset;
use chrono::offset::TimeZone;
use wtiirn::model::Coordinates;
use wtiirn::model::TidePrediction;
use wtiirn::model::Timestamp;
use wtiirn::stations::Station;
use wtiirn::stations::StationCatalogue;

fn pst_time(y: i32, mo: u32, d: u32, h: u32, mi: u32, s: u32) -> Timestamp {
    let pst = FixedOffset::west_opt(8 * 3600).unwrap();
    let t = pst.with_ymd_and_hms(y, mo, d, h, mi, s).unwrap();
    Timestamp {
        seconds: t.timestamp(),
        offset_seconds: -8 * 3600,
    }
}

#[test]
fn test_adding_and_finding_stations() {
    let mut catalogue = StationCatalogue::empty();
    catalogue.add(
        "Point Atkinson",
        &Coordinates {
            lat_microdeg: 49_336_000,
            lon_microdeg: -123_262_000,
        },
        &vec![],
    );
    catalogue.add(
        "Port Lavaca",
        &Coordinates {
            lat_microdeg: 28_640_600,
            lon_microdeg: -96_609_800,
        },
        &vec![],
    );
    let aus = Coordinates {
        lat_microdeg: 30_194_444,
        lon_microdeg: -97_670_000,
    };
    let yvr = Coordinates {
        lat_microdeg: 49_194_722,
        lon_microdeg: -123_183_889,
    };
    assert_eq!(catalogue.find_near(&aus).unwrap().name, "Port Lavaca");
    assert_eq!(catalogue.find_near(&yvr).unwrap().name, "Point Atkinson");
}

#[test]
fn test_finding_predictions_for_station() {
    let mut catalogue = StationCatalogue::empty();
    catalogue.add(
        "Point Atkinson",
        &Coordinates {
            lat_microdeg: 49_336_000,
            lon_microdeg: -123_262_000,
        },
        &vec![TidePrediction {
            tide_micrometers: 2_000_000,
            time: pst_time(2019, 05, 14, 0, 0, 0),
        }],
    );

    catalogue.add(
        "Port Lavaca",
        &Coordinates {
            lat_microdeg: 28_640_600,
            lon_microdeg: -96_609_800,
        },
        &vec![],
    );

    let yvr = Coordinates {
        lat_microdeg: 49_194_722,
        lon_microdeg: -123_183_889,
    };

    assert_eq!(
        catalogue
            .predictions_for_station(catalogue.find_near(&yvr).unwrap())
            .expect("No predictions found")
            .len(),
        1
    );
}

#[test]
fn it_should_generate_the_same_id_for_the_same_input() {
    let name = "A Tide Station";
    let source_id = 123456;

    let id1 = Station::generate_id(name, source_id);
    let id2 = Station::generate_id(name, source_id);
    assert_eq!(id1, id2);
}

#[test]
fn it_should_generate_different_ids_for_different_inputs() {
    let name = "A Tide Station";
    let source_id = 123456;

    let name2 = "A different station";

    let id1 = Station::generate_id(name, source_id);
    let id2 = Station::generate_id(name2, source_id);
    assert_ne!(id1, id2);

    let source_id2 = 654321;
    let id3 = Station::generate_id(name, source_id2);
    assert_ne!(id1, id3);
    assert_ne!(id2, id3);
}

#[test]
fn an_empty_catalogue_holds_nothing_and_a_test_catalogue_one_station() {
    let empty = StationCatalogue::empty();
    assert_eq!(empty.station_count(), 0);
    let test_catalogue = StationCatalogue::test();
    assert_eq!(test_catalogue.station_count(), 1);
    assert_eq!(test_catalogue.station_at(0).name, "Test Station");
}

#[test]
fn a_catalogue_assembled_from_parts_keeps_its_stations() {
    let station = Station {
        name: "Somewhere".to_owned(),
        coordinates: Coordinates {
            lat_microdeg: 10_000_000,
            lon_microdeg: 20_000_000,
        },
        id: 42,
    };
    let catalogue = StationCatalogue::from_parts(vec![station], vec![]);
    assert_eq!(catalogue.station_count(), 1);
    assert_eq!(catalogue.station_at(0).id, 42);
}

#[test]
fn equidistant_stations_tie_break_to_catalogue_order() {
    let mut catalogue = StationCatalogue::empty();
    let spot = Coordinates {
        lat_microdeg: 49_336_000,
        lon_microdeg: -123_262_000,
    };
    catalogue.add("First", &spot, &vec![]);
    catalogue.add("Second", &spot, &vec![]);
    let nearby = Coordinates {
        lat_microdeg: 49_194_722,
        lon_microdeg: -123_183_889,
    };
    assert_eq!(catalogue.find_near(&nearby).unwrap().name, "First");
}

#[test]
fn coordinates_are_validated_on_construction() {
    assert!(Coordinates::new(90_000_000, 180_000_000).is_some());
    assert!(Coordinates::new(-90_000_000, -180_000_000).is_some());
    assert!(Coordinates::new(90_000_001, 0).is_none());
    assert!(Coordinates::new(0, -180_000_001).is_none());
}
