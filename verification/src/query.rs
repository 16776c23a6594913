//! The top-level tide query: everything a presentation layer needs to
//! answer "what tide is it right now, here?".
//!
//! One call picks the station nearest the query point (or the default
//! reference point when none is given), measures the distance to it,
//! fetches its prediction series, brackets the query instant, and
//! interpolates the instantaneous tide state. A missing bracket is an
//! ordinary "no tide information" outcome; only the defect-class
//! numeric failure of the distance geometry surfaces as an error.

use vstd::prelude::*;
use crate::TideError;
use crate::find::TideStatus;
use crate::find::current_tide_status;
use crate::find::nearest_pair;
use crate::find::spec_level;
use crate::gcd::great_circle_distance;
use crate::gcd::lemma_cos_central_symmetric;
use crate::gcd::spec_acos_domain_ok;
use crate::gcd::spec_cos_central;
use crate::gcd::spec_distance_mm;
use crate::model::Coordinates;
use crate::model::TidePredictionPair;
use crate::model::Timestamp;
use crate::stations::StationCatalogue;
use crate::stations::lemma_preds_for_heights;
use crate::stations::spec_preds_for;

verus! {

/// Where a query without coordinates is answered from.
pub open spec fn spec_default_reference_point() -> Coordinates {
    Coordinates { lat_microdeg: 49_329_900i64, lon_microdeg: -123_265_000i64 }
}

/// The default reference point, on the shore the system grew up at.
pub fn default_reference_point() -> (r: Coordinates)
    ensures
        r == spec_default_reference_point(),
        r.valid(),
{
    Coordinates { lat_microdeg: 49_329_900i64, lon_microdeg: -123_265_000i64 }
}

/// The point a query is answered for: the caller's location when one
/// was given, the default reference point otherwise.
pub open spec fn spec_query_point(location: Option<Coordinates>) -> Coordinates {
    match location {
        Some(c) => c,
        None => spec_default_reference_point(),
    }
}

/// Everything one query produces: the chosen station (as its position
/// in the catalogue), the distance to it when the caller gave a
/// location, and the bracket with its interpolated state when the
/// station's series covers the query instant.
pub struct TideReport {
    pub station_index: usize,
    pub distance_mm: Option<i64>,
    pub pair: Option<TidePredictionPair>,
    pub status: Option<TideStatus>,
}

/// Answer one tide query against the catalogue.
///
/// The chosen station is the first-nearest one to the query point; the
/// distance is reported only when the caller supplied a location; the
/// bracket and status are present together exactly when the station's
/// series records an extremum on both sides of the query instant. The
/// only error is the defect-class geometry failure, and it comes
/// exactly when some station's distance leaves the arc-cosine domain.
pub fn tide_query(catalogue: &StationCatalogue, location: Option<Coordinates>, now: Timestamp)
    -> (r: Result<TideReport, TideError>)
    requires
        catalogue.spec_stations().len() > 0,
        catalogue.wf(),
        catalogue.heights_ok(),
        location matches Some(c) ==> c.in_domain(),
    ensures
        ({
            let point = spec_query_point(location);
            match r {
                Ok(rep) => {
                    let chosen = catalogue.spec_stations()[rep.station_index as int];
                    let preds = spec_preds_for(catalogue.spec_predictions(), chosen.id);
                    &&& rep.station_index < catalogue.spec_stations().len()
                    &&& forall|j: int| 0 <= j < catalogue.spec_stations().len()
                        ==> spec_distance_mm(
                            (#[trigger] catalogue.spec_stations()[j]).coordinates, point)
                            >= spec_distance_mm(chosen.coordinates, point)
                    &&& forall|j: int| 0 <= j < rep.station_index ==> spec_distance_mm(
                        (#[trigger] catalogue.spec_stations()[j]).coordinates, point)
                        > spec_distance_mm(chosen.coordinates, point)
                    &&& (match location {
                        Some(c) => rep.distance_mm == Some(
                            spec_distance_mm(c, chosen.coordinates) as i64),
                        None => rep.distance_mm is None,
                    })
                    &&& (match (rep.pair, rep.status) {
                        (Some(pair), Some(st)) => {
                            &&& preds.contains(pair.prev)
                            &&& preds.contains(pair.next)
                            &&& pair.prev.time.seconds < now.seconds
                            &&& now.seconds <= pair.next.time.seconds
                            &&& (forall|i: int| 0 <= i < preds.len()
                                && (#[trigger] preds[i]).time.seconds < now.seconds
                                    ==> preds[i].time.seconds <= pair.prev.time.seconds)
                            &&& (forall|i: int| 0 <= i < preds.len()
                                && (#[trigger] preds[i]).time.seconds >= now.seconds
                                    ==> preds[i].time.seconds >= pair.next.time.seconds)
                            &&& st.level_micrometers == spec_level(
                                pair.prev.tide_micrometers as int,
                                pair.next.tide_micrometers as int,
                                pair.prev.time.seconds as int,
                                pair.next.time.seconds as int,
                                now.seconds as int,
                            )
                            &&& st.coming_in == pair.spec_coming_in()
                            &&& st.delta_micrometers == pair.next.tide_micrometers
                                - st.level_micrometers
                        },
                        (None, None) => (forall|i: int| 0 <= i < preds.len()
                            ==> (#[trigger] preds[i]).time.seconds >= now.seconds) || (forall|
                            i: int,
                        | 0 <= i < preds.len()
                            ==> (#[trigger] preds[i]).time.seconds < now.seconds),
                        _ => false,
                    })
                },
                Err(e) => e == TideError::CosineOutOfDomain && exists|j: int|
                    0 <= j < catalogue.spec_stations().len() && !spec_acos_domain_ok(
                        spec_cos_central(
                            (#[trigger] catalogue.spec_stations()[j]).coordinates, point)),
            }
        }),
{
    let point: Coordinates = match location {
        Some(c) => c,
        None => default_reference_point(),
    };
    let ix = match catalogue.find_near_index(&point) {
        Err(e) => {
            return Err(e);
        },
        Ok(ix) => ix,
    };
    let station = catalogue.station_at(ix);
    let distance_mm: Option<i64> = match location {
        None => None,
        Some(c) => {
            proof {
                lemma_cos_central_symmetric(station.coordinates, c);
            }
            match great_circle_distance(&c, &station.coordinates) {
                Err(e) => {
                    proof {
                        assert(false);
                    }
                    return Err(e);
                },
                Ok(d) => Some(d),
            }
        },
    };
    let preds = match catalogue.predictions_for_station(station) {
        Some(v) => v,
        None => {
            proof {
                assert(false);
            }
            Vec::new()
        },
    };
    match nearest_pair(preds.as_slice(), now) {
        None => Ok(TideReport { station_index: ix, distance_mm, pair: None, status: None }),
        Some(pair) => {
            proof {
                lemma_preds_for_heights(catalogue.spec_predictions(), station.id);
                let s = spec_preds_for(catalogue.spec_predictions(), station.id);
                let kp = choose|k: int| 0 <= k < s.len() && s[k] == pair.prev;
                let kn = choose|k: int| 0 <= k < s.len() && s[k] == pair.next;
                assert(s[kp].height_in_range());
                assert(s[kn].height_in_range());
            }
            match current_tide_status(&pair, &now) {
                Err(e) => {
                    proof {
                        assert(false);
                    }
                    Err(e)
                },
                Ok(st) => Ok(TideReport {
                    station_index: ix,
                    distance_mm,
                    pair: Some(pair),
                    status: Some(st),
                }),
            }
        },
    }
}

} // verus!
