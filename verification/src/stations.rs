//! Tide stations and the queryable catalogue.
//!
//! A station is a named monitoring point with coordinates and a stable
//! identity derived from its upstream name and numeric source id, so
//! re-ingesting the same feed always yields the same identity. The
//! catalogue holds the stations and their prediction series, answers
//! which station lies nearest a query point (first of the equidistant
//! ones wins), and hands out the series belonging to one station.

use vstd::prelude::*;
use crate::TideError;
use crate::gcd::great_circle_distance;
use crate::gcd::spec_acos_domain_ok;
use crate::gcd::spec_cos_central;
use crate::gcd::spec_distance_mm;
use crate::model::Coordinates;
use crate::model::TidePrediction;

verus! {

/// The identity that `Station::generate_id` derives from an upstream
/// name and numeric source id.
pub uninterp spec fn spec_station_id(name: Seq<char>, source_id: u32) -> u128;

/// The generic information about a tide station, divorced from
/// meta-data like "how are the tides predicted" and "who's responsible
/// for this station".
#[derive(Clone, PartialEq, Debug)]
pub struct Station {
    pub name: String,
    pub coordinates: Coordinates,
    pub id: u128,
}

impl Station {
    /// Relies on uuid::Uuid::new_v5: the version-5 UUID is the SHA-1
    /// digest of the namespace and the name bytes, a function of its
    /// arguments alone, so equal inputs always give equal identities.
    #[verifier::external_body]
    pub fn generate_id(name: &str, source_id: u32) -> (r: u128)
        ensures
            r == spec_station_id(name@, source_id),
    {
        let name_bytes = format!("{}{}", name, source_id).into_bytes();
        uuid::Uuid::new_v5(&uuid::Uuid::NAMESPACE_OID, &name_bytes).as_u128()
    }
}

/// Relies on uuid::Uuid::new_v4: a randomly drawn identifier; nothing
/// is promised of its value.
#[verifier::external_body]
fn fresh_station_id() -> u128 {
    uuid::Uuid::new_v4().as_u128()
}

/// The prediction series belonging to one station, keyed by its id.
#[derive(Clone, PartialEq, Debug)]
pub struct PredictionsWithId {
    pub station_id: u128,
    pub predictions: Vec<TidePrediction>,
}

/// All predictions of the entries whose id matches, in catalogue order.
pub open spec fn spec_preds_for(entries: Seq<PredictionsWithId>, id: u128) -> Seq<TidePrediction>
    decreases entries.len(),
{
    if entries.len() == 0 {
        Seq::empty()
    } else {
        spec_preds_for(entries.drop_last(), id) + (if entries.last().station_id == id {
            entries.last().predictions@
        } else {
            Seq::empty()
        })
    }
}

/// Every prediction of every series entry carries a height within the
/// interpolation bound.
pub open spec fn spec_all_heights_in_range(entries: Seq<PredictionsWithId>) -> bool {
    forall|i: int, j: int| 0 <= i < entries.len() && 0 <= j < entries[i].predictions@.len()
        ==> (#[trigger] entries[i].predictions@[j]).height_in_range()
}

/// Predictions gathered for a station inherit the height bound from
/// the series entries they were drawn from.
pub proof fn lemma_preds_for_heights(entries: Seq<PredictionsWithId>, id: u128)
    requires
        spec_all_heights_in_range(entries),
    ensures
        forall|k: int| 0 <= k < spec_preds_for(entries, id).len()
            ==> (#[trigger] spec_preds_for(entries, id)[k]).height_in_range(),
    decreases entries.len(),
{
    if entries.len() > 0 {
        let front = entries.drop_last();
        assert(spec_all_heights_in_range(front)) by {
            assert forall|i: int, j: int|
                0 <= i < front.len() && 0 <= j < front[i].predictions@.len()
                implies (#[trigger] front[i].predictions@[j]).height_in_range() by {
                assert(front[i] == entries[i]);
                assert(entries[i].predictions@[j].height_in_range());
            }
        }
        lemma_preds_for_heights(front, id);
        let tail: Seq<TidePrediction> = if entries.last().station_id == id {
            entries.last().predictions@
        } else {
            Seq::empty()
        };
        assert forall|k: int| 0 <= k < spec_preds_for(entries, id).len()
            implies (#[trigger] spec_preds_for(entries, id)[k]).height_in_range() by {
            if k < spec_preds_for(front, id).len() {
                assert(spec_preds_for(entries, id)[k] == spec_preds_for(front, id)[k]);
            } else {
                let j = k - spec_preds_for(front, id).len();
                assert(spec_preds_for(entries, id)[k] == tail[j]);
                if entries.last().station_id == id {
                    assert(entries[entries.len() - 1].predictions@[j].height_in_range());
                }
            }
        }
    }
}

/// Queryable repository of stations.
pub struct StationCatalogue {
    stations: Vec<Station>,
    predictions: Vec<PredictionsWithId>,
}

impl StationCatalogue {
    /// The stations the catalogue holds, in order.
    pub closed spec fn spec_stations(&self) -> Seq<Station> {
        self.stations@
    }

    /// The prediction series the catalogue holds, in order.
    pub closed spec fn spec_predictions(&self) -> Seq<PredictionsWithId> {
        self.predictions@
    }

    /// Every station sits on coordinates the distance arithmetic is
    /// defined on.
    pub open spec fn wf(&self) -> bool {
        forall|i: int| 0 <= i < self.spec_stations().len()
            ==> (#[trigger] self.spec_stations()[i]).coordinates.in_domain()
    }

    /// Every stored prediction carries a height within the
    /// interpolation bound.
    pub open spec fn heights_ok(&self) -> bool {
        spec_all_heights_in_range(self.spec_predictions())
    }

    /// How many stations the catalogue holds.
    pub fn station_count(&self) -> (r: usize)
        ensures
            r == self.spec_stations().len(),
    {
        self.stations.len()
    }

    /// The station at a catalogue position.
    pub fn station_at(&self, i: usize) -> (r: &Station)
        requires
            i < self.spec_stations().len(),
        ensures
            *r == self.spec_stations()[i as int],
    {
        &self.stations[i]
    }

    /// A catalogue with no stations and no predictions. It cannot
    /// serve any query; loading must add at least one station before
    /// the system starts answering.
    pub fn empty() -> (r: StationCatalogue)
        ensures
            r.spec_stations().len() == 0,
            r.spec_predictions().len() == 0,
            r.wf(),
            r.heights_ok(),
    {
        StationCatalogue { stations: Vec::new(), predictions: Vec::new() }
    }

    /// A catalogue holding one placeholder station at the origin.
    pub fn test() -> (r: StationCatalogue)
        ensures
            r.spec_stations().len() == 1,
            r.spec_stations()[0].name@ == "Test Station"@,
            r.spec_stations()[0].coordinates == (Coordinates { lat_microdeg: 0, lon_microdeg: 0 }),
            r.spec_predictions().len() == 0,
            r.wf(),
            r.heights_ok(),
    {
        let station = Station {
            name: "Test Station".to_owned(),
            coordinates: Coordinates { lat_microdeg: 0, lon_microdeg: 0 },
            id: fresh_station_id(),
        };
        let mut stations: Vec<Station> = Vec::new();
        stations.push(station);
        StationCatalogue { stations, predictions: Vec::new() }
    }

    /// Assemble a catalogue from already-loaded parts. The caller owns
    /// the identities; the usual source is a persisted feed that
    /// carries them along.
    pub fn from_parts(stations: Vec<Station>, predictions: Vec<PredictionsWithId>) -> (r:
        StationCatalogue)
        requires
            forall|i: int| 0 <= i < stations@.len()
                ==> (#[trigger] stations@[i]).coordinates.in_domain(),
            spec_all_heights_in_range(predictions@),
        ensures
            r.spec_stations() == stations@,
            r.spec_predictions() == predictions@,
            r.wf(),
            r.heights_ok(),
    {
        StationCatalogue { stations, predictions }
    }

    /// Add a station's data to this catalogue, assigning it a fresh
    /// unique id.
    pub fn add(&mut self, name: &str, coordinates: &Coordinates, predictions: &[TidePrediction])
        requires
            coordinates.in_domain(),
            old(self).wf(),
            old(self).heights_ok(),
            forall|i: int| 0 <= i < predictions@.len()
                ==> (#[trigger] predictions@[i]).height_in_range(),
        ensures
            final(self).wf(),
            final(self).heights_ok(),
            final(self).spec_stations().len() == old(self).spec_stations().len() + 1,
            final(self).spec_stations().drop_last() == old(self).spec_stations(),
            final(self).spec_stations().last().name@ == name@,
            final(self).spec_stations().last().coordinates == *coordinates,
            final(self).spec_predictions().len() == old(self).spec_predictions().len() + 1,
            final(self).spec_predictions().drop_last() == old(self).spec_predictions(),
            final(self).spec_predictions().last().station_id
                == final(self).spec_stations().last().id,
            final(self).spec_predictions().last().predictions@ == predictions@,
    {
        let id = fresh_station_id();
        let station = Station { name: name.to_owned(), coordinates: *coordinates, id };
        self.stations.push(station);
        let mut series: Vec<TidePrediction> = Vec::new();
        let mut i: usize = 0;
        while i < predictions.len()
            invariant
                0 <= i <= predictions@.len(),
                series@ == predictions@.take(i as int),
            decreases predictions@.len() - i,
        {
            series.push(predictions[i]);
            proof {
                assert(series@ =~= predictions@.take(i + 1));
            }
            i = i + 1;
        }
        proof {
            assert(series@ =~= predictions@);
        }
        self.predictions.push(PredictionsWithId { station_id: id, predictions: series });
        proof {
            assert(final(self).spec_stations().drop_last() =~= old(self).spec_stations());
            assert(final(self).spec_predictions().drop_last() =~= old(self).spec_predictions());
            let entries = final(self).spec_predictions();
            assert forall|i: int, j: int|
                0 <= i < entries.len() && 0 <= j < entries[i].predictions@.len()
                implies (#[trigger] entries[i].predictions@[j]).height_in_range() by {
                if i < entries.len() - 1 {
                    assert(entries[i] == old(self).spec_predictions()[i]);
                    assert(old(self).spec_predictions()[i].predictions@[j].height_in_range());
                } else {
                    assert(entries[i].predictions@ == predictions@);
                    assert(predictions@[j].height_in_range());
                }
            }
        }
    }

    /// Position of the station nearest to the given coordinates: the
    /// linear scan keeps the first of any equidistant stations, so the
    /// choice is deterministic in catalogue order. A distance whose
    /// geometry breaks down is a defect and surfaces as the error.
    pub fn find_near_index(&self, coordinates: &Coordinates) -> (r: Result<usize, TideError>)
        requires
            self.spec_stations().len() > 0,
            coordinates.in_domain(),
            self.wf(),
        ensures
            match r {
                Ok(ix) => {
                    &&& 0 <= ix < self.spec_stations().len()
                    &&& forall|j: int| 0 <= j < self.spec_stations().len()
                        ==> spec_acos_domain_ok(spec_cos_central(
                            (#[trigger] self.spec_stations()[j]).coordinates, *coordinates))
                    &&& forall|j: int| 0 <= j < self.spec_stations().len()
                        ==> spec_distance_mm(
                            (#[trigger] self.spec_stations()[j]).coordinates, *coordinates)
                            >= spec_distance_mm(self.spec_stations()[ix as int].coordinates,
                            *coordinates)
                    &&& forall|j: int| 0 <= j < ix ==> spec_distance_mm(
                        (#[trigger] self.spec_stations()[j]).coordinates, *coordinates)
                        > spec_distance_mm(self.spec_stations()[ix as int].coordinates,
                        *coordinates)
                },
                Err(e) => e == TideError::CosineOutOfDomain && exists|j: int|
                    0 <= j < self.spec_stations().len() && !spec_acos_domain_ok(spec_cos_central(
                        (#[trigger] self.spec_stations()[j]).coordinates, *coordinates)),
            },
    {
        let first = match great_circle_distance(&self.stations[0].coordinates, coordinates) {
            Err(e) => {
                return Err(e);
            },
            Ok(d) => d,
        };
        let mut best: usize = 0;
        let mut best_d: i64 = first;
        let mut i: usize = 1;
        while i < self.stations.len()
            invariant
                1 <= i <= self.spec_stations().len(),
                0 <= best < i,
                coordinates.in_domain(),
                self.wf(),
                forall|j: int| 0 <= j < i ==> spec_acos_domain_ok(spec_cos_central(
                    (#[trigger] self.spec_stations()[j]).coordinates, *coordinates)),
                best_d == spec_distance_mm(self.spec_stations()[best as int].coordinates,
                    *coordinates),
                forall|j: int| 0 <= j < i ==> spec_distance_mm(
                    (#[trigger] self.spec_stations()[j]).coordinates, *coordinates) >= best_d,
                forall|j: int| 0 <= j < best ==> spec_distance_mm(
                    (#[trigger] self.spec_stations()[j]).coordinates, *coordinates) > best_d,
            decreases self.spec_stations().len() - i,
        {
            match great_circle_distance(&self.stations[i].coordinates, coordinates) {
                Err(e) => {
                    return Err(e);
                },
                Ok(d) => {
                    if d < best_d {
                        best = i;
                        best_d = d;
                    }
                },
            }
            i = i + 1;
        }
        Ok(best)
    }

    /// Find the station nearest to the given coordinates. The borrowed
    /// station is the one `find_near_index` points at.
    pub fn find_near(&self, coordinates: &Coordinates) -> (r: Result<&Station, TideError>)
        requires
            self.spec_stations().len() > 0,
            coordinates.in_domain(),
            self.wf(),
        ensures
            match r {
                Ok(s) => {
                    &&& forall|j: int| 0 <= j < self.spec_stations().len()
                        ==> spec_acos_domain_ok(spec_cos_central(
                            (#[trigger] self.spec_stations()[j]).coordinates, *coordinates))
                    &&& exists|i: int| {
                        &&& 0 <= i < self.spec_stations().len()
                        &&& *s == self.spec_stations()[i]
                        &&& (forall|j: int| 0 <= j < self.spec_stations().len()
                            ==> spec_distance_mm(
                                (#[trigger] self.spec_stations()[j]).coordinates, *coordinates)
                                >= spec_distance_mm(self.spec_stations()[i].coordinates,
                                *coordinates))
                        &&& (forall|j: int| 0 <= j < i ==> spec_distance_mm(
                            (#[trigger] self.spec_stations()[j]).coordinates, *coordinates)
                            > spec_distance_mm(self.spec_stations()[i].coordinates, *coordinates))
                    }
                },
                Err(e) => e == TideError::CosineOutOfDomain && exists|j: int|
                    0 <= j < self.spec_stations().len() && !spec_acos_domain_ok(spec_cos_central(
                        (#[trigger] self.spec_stations()[j]).coordinates, *coordinates)),
            },
    {
        match self.find_near_index(coordinates) {
            Err(e) => Err(e),
            Ok(ix) => {
                let s = &self.stations[ix];
                proof {
                    let i = ix as int;
                    assert(0 <= i < self.spec_stations().len() && *s == self.spec_stations()[i]
                        && (forall|j: int| 0 <= j < self.spec_stations().len()
                            ==> spec_distance_mm(
                                (#[trigger] self.spec_stations()[j]).coordinates, *coordinates)
                                >= spec_distance_mm(self.spec_stations()[i].coordinates,
                                *coordinates)) && (forall|j: int| 0 <= j < i
                            ==> spec_distance_mm(
                                (#[trigger] self.spec_stations()[j]).coordinates, *coordinates)
                                > spec_distance_mm(self.spec_stations()[i].coordinates,
                                *coordinates)));
                }
                Ok(s)
            },
        }
    }

    /// All predictions recorded for the given station, gathered from
    /// every series entry carrying its id, in catalogue order.
    pub fn predictions_for_station(&self, station: &Station) -> (r: Option<Vec<TidePrediction>>)
        ensures
            match r {
                Some(v) => v@ == spec_preds_for(self.spec_predictions(), station.id),
                None => false,
            },
    {
        let mut out: Vec<TidePrediction> = Vec::new();
        let mut i: usize = 0;
        while i < self.predictions.len()
            invariant
                0 <= i <= self.spec_predictions().len(),
                out@ == spec_preds_for(self.spec_predictions().take(i as int), station.id),
            decreases self.spec_predictions().len() - i,
        {
            let entry = &self.predictions[i];
            if entry.station_id == station.id {
                let mut j: usize = 0;
                while j < entry.predictions.len()
                    invariant
                        0 <= j <= entry.predictions@.len(),
                        entry == self.spec_predictions()[i as int],
                        i < self.spec_predictions().len(),
                        entry.station_id == station.id,
                        out@ == spec_preds_for(self.spec_predictions().take(i as int), station.id)
                            + entry.predictions@.take(j as int),
                    decreases entry.predictions@.len() - j,
                {
                    out.push(entry.predictions[j]);
                    proof {
                        assert(out@ =~= spec_preds_for(self.spec_predictions().take(i as int),
                            station.id) + entry.predictions@.take(j + 1));
                    }
                    j = j + 1;
                }
                proof {
                    assert(entry.predictions@.take(entry.predictions@.len() as int)
                        =~= entry.predictions@);
                    lemma_preds_for_step(self.spec_predictions(), station.id, i as int);
                }
            } else {
                proof {
                    lemma_preds_for_step(self.spec_predictions(), station.id, i as int);
                    assert(out@ =~= spec_preds_for(self.spec_predictions().take(i + 1),
                        station.id));
                }
            }
            i = i + 1;
        }
        proof {
            assert(self.spec_predictions().take(self.spec_predictions().len() as int)
                =~= self.spec_predictions());
        }
        Some(out)
    }
}

/// Extending the scanned prefix by one entry appends that entry's
/// matching predictions, if any.
proof fn lemma_preds_for_step(entries: Seq<PredictionsWithId>, id: u128, i: int)
    requires
        0 <= i < entries.len(),
    ensures
        spec_preds_for(entries.take(i + 1), id) == spec_preds_for(entries.take(i), id) + (
        if entries[i].station_id == id {
            entries[i].predictions@
        } else {
            Seq::<TidePrediction>::empty()
        }),
{
    let pre = entries.take(i + 1);
    assert(pre.drop_last() =~= entries.take(i));
    assert(pre.last() == entries[i]);
    if entries[i].station_id != id {
        assert(spec_preds_for(entries.take(i), id) + Seq::<TidePrediction>::empty()
            =~= spec_preds_for(entries.take(i), id));
    }
}

} // verus!
