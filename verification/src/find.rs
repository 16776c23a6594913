//! Bracket finding and sinusoidal interpolation.
//!
//! The series of recorded extrema for one station is sorted by time,
//! split at the query instant, and the last extremum before the query
//! together with the first one at or after it form the bracket pair.
//! A query landing exactly on a recorded timestamp belongs to the
//! `next` side. Between the two ends the instantaneous height follows
//! one lobe of a cosine wave.

use vstd::prelude::*;
use itertools::Itertools;
use crate::SCALE;
use crate::TideError;
use crate::model::TidePrediction;
use crate::model::TidePredictionPair;
use crate::model::Timestamp;
use crate::trig::PI_FP;
use crate::trig::cos_pi;
use crate::trig::spec_cos_pi;
use crate::trig::lemma_nonneg_div_bound;

verus! {

/// The sequence never steps backwards in time.
pub open spec fn spec_sorted_by_time(s: Seq<TidePrediction>) -> bool {
    forall|i: int, j: int| 0 <= i < j < s.len() ==> s[i].time.seconds <= s[j].time.seconds
}

/// Relies on itertools::Itertools::sorted_by_key: collects the items
/// into a vector and stable-sorts them by the key, here the instant of
/// each prediction. The result holds exactly the given items, ordered
/// by ascending time.
#[verifier::external_body]
fn sorted_by_time(tides: &[TidePrediction]) -> (r: Vec<TidePrediction>)
    ensures
        r@.to_multiset() == tides@.to_multiset(),
        spec_sorted_by_time(r@),
{
    tides.iter().cloned().sorted_by_key(|x: &TidePrediction| x.time.seconds).collect()
}

/// Find the recorded extrema on either side of a query instant: the
/// latest one strictly before it, and the earliest one at or after it.
/// Each side comes independently; a missing side means the query falls
/// off that edge of the series.
pub fn find_nearest_pair(tides: &[TidePrediction], time: Timestamp) -> (r: (
    Option<TidePrediction>,
    Option<TidePrediction>,
))
    ensures
        match r.0 {
            Some(p) => tides@.contains(p) && p.time.seconds < time.seconds && forall|i: int|
                0 <= i < tides@.len() && tides@[i].time.seconds < time.seconds
                    ==> tides@[i].time.seconds <= p.time.seconds,
            None => forall|i: int| 0 <= i < tides@.len() ==> tides@[i].time.seconds >= time.seconds,
        },
        match r.1 {
            Some(nx) => tides@.contains(nx) && nx.time.seconds >= time.seconds && forall|i: int|
                0 <= i < tides@.len() && tides@[i].time.seconds >= time.seconds
                    ==> tides@[i].time.seconds >= nx.time.seconds,
            None => forall|i: int| 0 <= i < tides@.len() ==> tides@[i].time.seconds < time.seconds,
        },
{
    let sorted = sorted_by_time(tides);
    let n = sorted.len();
    let mut idx: usize = 0;
    while idx < n && sorted[idx].time.seconds < time.seconds
        invariant
            0 <= idx <= n,
            n == sorted@.len(),
            forall|k: int| 0 <= k < idx ==> sorted@[k].time.seconds < time.seconds,
        decreases n - idx,
    {
        idx = idx + 1;
    }
    proof {
        broadcast use vstd::seq_lib::group_to_multiset_ensures;
    }
    let prev: Option<TidePrediction> = if idx == 0 {
        proof {
            assert forall|i: int| 0 <= i < tides@.len()
                implies tides@[i].time.seconds >= time.seconds by {
                assert(tides@.contains(tides@[i]));
                assert(tides@.to_multiset().count(tides@[i]) > 0);
                assert(sorted@.to_multiset().count(tides@[i]) > 0);
                assert(sorted@.contains(tides@[i]));
                let j = choose|j: int| 0 <= j < sorted@.len() && sorted@[j] == tides@[i];
                if sorted@[0].time.seconds < time.seconds {
                    assert(false);
                }
                assert(sorted@[0].time.seconds <= sorted@[j].time.seconds);
            }
        }
        None
    } else {
        let p = sorted[idx - 1];
        proof {
            assert(sorted@.contains(p));
            assert(sorted@.to_multiset().count(p) > 0);
            assert(tides@.to_multiset().count(p) > 0);
            assert(tides@.contains(p));
            assert forall|i: int| 0 <= i < tides@.len() && tides@[i].time.seconds < time.seconds
                implies tides@[i].time.seconds <= p.time.seconds by {
                assert(tides@.contains(tides@[i]));
                assert(tides@.to_multiset().count(tides@[i]) > 0);
                assert(sorted@.to_multiset().count(tides@[i]) > 0);
                assert(sorted@.contains(tides@[i]));
                let j = choose|j: int| 0 <= j < sorted@.len() && sorted@[j] == tides@[i];
                if j >= idx {
                    assert(idx < n);
                    assert(sorted@[idx as int].time.seconds <= sorted@[j].time.seconds);
                    assert(false);
                }
                if j < idx - 1 {
                    assert(sorted@[j].time.seconds <= sorted@[idx - 1].time.seconds);
                }
            }
        }
        Some(p)
    };
    let next: Option<TidePrediction> = if idx == n {
        proof {
            assert forall|i: int| 0 <= i < tides@.len()
                implies tides@[i].time.seconds < time.seconds by {
                assert(tides@.contains(tides@[i]));
                assert(tides@.to_multiset().count(tides@[i]) > 0);
                assert(sorted@.to_multiset().count(tides@[i]) > 0);
                assert(sorted@.contains(tides@[i]));
                let j = choose|j: int| 0 <= j < sorted@.len() && sorted@[j] == tides@[i];
            }
        }
        None
    } else {
        let nx = sorted[idx];
        proof {
            assert(sorted@.contains(nx));
            assert(sorted@.to_multiset().count(nx) > 0);
            assert(tides@.to_multiset().count(nx) > 0);
            assert(tides@.contains(nx));
            assert forall|i: int| 0 <= i < tides@.len() && tides@[i].time.seconds >= time.seconds
                implies tides@[i].time.seconds >= nx.time.seconds by {
                assert(tides@.contains(tides@[i]));
                assert(tides@.to_multiset().count(tides@[i]) > 0);
                assert(sorted@.to_multiset().count(tides@[i]) > 0);
                assert(sorted@.contains(tides@[i]));
                let j = choose|j: int| 0 <= j < sorted@.len() && sorted@[j] == tides@[i];
                if j < idx {
                    assert(false);
                }
                if j > idx {
                    assert(sorted@[idx as int].time.seconds <= sorted@[j].time.seconds);
                }
            }
        }
        Some(nx)
    };
    (prev, next)
}

/// The bracket pair around a query instant, if the series records an
/// extremum on both sides of it; `None` when the query falls before
/// the first recorded extremum or after the last one.
pub fn nearest_pair(tides: &[TidePrediction], time: Timestamp) -> (r: Option<TidePredictionPair>)
    ensures
        match r {
            Some(pair) => {
                &&& tides@.contains(pair.prev)
                &&& tides@.contains(pair.next)
                &&& pair.prev.time.seconds < time.seconds
                &&& time.seconds <= pair.next.time.seconds
                &&& pair.wf()
                &&& forall|i: int| 0 <= i < tides@.len()
                    && tides@[i].time.seconds < time.seconds
                        ==> tides@[i].time.seconds <= pair.prev.time.seconds
                &&& forall|i: int| 0 <= i < tides@.len()
                    && tides@[i].time.seconds >= time.seconds
                        ==> tides@[i].time.seconds >= pair.next.time.seconds
            },
            None => (forall|i: int| 0 <= i < tides@.len()
                ==> tides@[i].time.seconds >= time.seconds) || (forall|i: int|
                0 <= i < tides@.len() ==> tides@[i].time.seconds < time.seconds),
        },
{
    let (prev, next) = find_nearest_pair(tides, time);
    match (next, prev) {
        (Some(nx), Some(p)) => Some(TidePredictionPair { next: nx, prev: p }),
        _ => None,
    }
}

/// Position of a query instant inside its bracket, as a fixed-point
/// angle in [0, pi]: zero at the previous extremum, pi at the next.
pub open spec fn spec_phase(t0: int, t1: int, t: int) -> int {
    (t - t0) * (PI_FP as int) / (t1 - t0)
}

/// Height of the half-cosine lobe through (t0, f0) and (t1, f1) at a
/// moment t between them.
pub open spec fn spec_level(f0: int, f1: int, t0: int, t1: int, t: int) -> int {
    let c = spec_cos_pi(spec_phase(t0, t1, t));
    if f0 >= f1 {
        f1 + (f0 - f1) * ((SCALE as int) + c) / (2 * (SCALE as int))
    } else {
        f1 - (f1 - f0) * ((SCALE as int) + c) / (2 * (SCALE as int))
    }
}

/// Given two predictions and a time between them, use a sinusoidal
/// function to approximate the current tide level, in micrometers.
///
/// The result always stays between the two bracket heights, and a
/// zero-width bracket (two extrema on one timestamp) is rejected
/// loudly instead of dividing by zero.
pub fn approximate_current_level(predictions: &TidePredictionPair, current_time: &Timestamp) -> (r:
    Result<i64, TideError>)
    requires
        predictions.prev.time.seconds <= current_time.seconds,
        current_time.seconds <= predictions.next.time.seconds,
        predictions.prev.height_in_range(),
        predictions.next.height_in_range(),
    ensures
        predictions.prev.time.seconds == predictions.next.time.seconds ==> r == Err::<
            i64,
            TideError,
        >(TideError::ZeroWidthBracket),
        predictions.prev.time.seconds < predictions.next.time.seconds ==> r == Ok::<
            i64,
            TideError,
        >(
            spec_level(
                predictions.prev.tide_micrometers as int,
                predictions.next.tide_micrometers as int,
                predictions.prev.time.seconds as int,
                predictions.next.time.seconds as int,
                current_time.seconds as int,
            ) as i64,
        ),
        r matches Ok(l) ==> {
            let lo = if predictions.prev.tide_micrometers <= predictions.next.tide_micrometers {
                predictions.prev.tide_micrometers
            } else {
                predictions.next.tide_micrometers
            };
            let hi = if predictions.prev.tide_micrometers <= predictions.next.tide_micrometers {
                predictions.next.tide_micrometers
            } else {
                predictions.prev.tide_micrometers
            };
            lo <= l <= hi
        },
        predictions.prev.time.seconds < predictions.next.time.seconds ==> {
            let lo = if predictions.prev.tide_micrometers <= predictions.next.tide_micrometers {
                predictions.prev.tide_micrometers
            } else {
                predictions.next.tide_micrometers
            };
            let hi = if predictions.prev.tide_micrometers <= predictions.next.tide_micrometers {
                predictions.next.tide_micrometers
            } else {
                predictions.prev.tide_micrometers
            };
            lo <= spec_level(
                predictions.prev.tide_micrometers as int,
                predictions.next.tide_micrometers as int,
                predictions.prev.time.seconds as int,
                predictions.next.time.seconds as int,
                current_time.seconds as int,
            ) <= hi
        },
{
    let f0: i64 = predictions.prev.tide_micrometers;
    let f1: i64 = predictions.next.tide_micrometers;
    let t0: i64 = predictions.prev.time.seconds;
    let t1: i64 = predictions.next.time.seconds;
    let t: i64 = current_time.seconds;
    if t1 == t0 {
        return Err(TideError::ZeroWidthBracket);
    }
    let span: i128 = (t1 as i128) - (t0 as i128);
    let elapsed: i128 = (t as i128) - (t0 as i128);
    proof {
        lemma_nonneg_div_bound(elapsed * (PI_FP as int), span * (PI_FP as int), span as int,
            span as int);
        vstd::arithmetic::div_mod::lemma_div_multiples_vanish(PI_FP as int, span as int);
        assert(span * (PI_FP as int) == (span as int) * (PI_FP as int));
    }
    let phase: i128 = elapsed * PI_FP / span;
    let c: i128 = cos_pi(phase);
    let blend: i128 = SCALE + c;
    if f0 >= f1 {
        let diff: i128 = (f0 as i128) - (f1 as i128);
        proof {
            assert(0 <= diff * blend <= diff * (2 * (SCALE as int))) by (nonlinear_arith)
                requires 0 <= diff, 0 <= blend <= 2 * (SCALE as int);
            lemma_nonneg_div_bound(diff * blend, diff * (2 * (SCALE as int)),
                2 * (SCALE as int), 2 * (SCALE as int));
            vstd::arithmetic::div_mod::lemma_div_multiples_vanish(diff as int,
                2 * (SCALE as int));
            assert(diff * (2 * (SCALE as int)) == (2 * (SCALE as int)) * (diff as int));
        }
        let q: i128 = diff * blend / (2 * SCALE);
        Ok(((f1 as i128) + q) as i64)
    } else {
        let diff: i128 = (f1 as i128) - (f0 as i128);
        proof {
            assert(0 <= diff * blend <= diff * (2 * (SCALE as int))) by (nonlinear_arith)
                requires 0 <= diff, 0 <= blend <= 2 * (SCALE as int);
            lemma_nonneg_div_bound(diff * blend, diff * (2 * (SCALE as int)),
                2 * (SCALE as int), 2 * (SCALE as int));
            vstd::arithmetic::div_mod::lemma_div_multiples_vanish(diff as int,
                2 * (SCALE as int));
            assert(diff * (2 * (SCALE as int)) == (2 * (SCALE as int)) * (diff as int));
        }
        let q: i128 = diff * blend / (2 * SCALE);
        Ok(((f1 as i128) - q) as i64)
    }
}

/// The instantaneous tide state inside a bracket: the interpolated
/// level, the direction, and the signed height change still to come
/// before the next extremum.
#[derive(Clone, Copy, PartialEq, Eq, Structural, Debug)]
pub struct TideStatus {
    pub level_micrometers: i64,
    pub coming_in: bool,
    pub delta_micrometers: i64,
}

/// Interpolate the level at a moment inside the bracket and classify
/// the tide: it is coming in exactly when the bracket rises, and the
/// signed delta is how far the level still has to travel to reach the
/// next extremum.
pub fn current_tide_status(predictions: &TidePredictionPair, current_time: &Timestamp) -> (r:
    Result<TideStatus, TideError>)
    requires
        predictions.prev.time.seconds <= current_time.seconds,
        current_time.seconds <= predictions.next.time.seconds,
        predictions.prev.height_in_range(),
        predictions.next.height_in_range(),
    ensures
        predictions.prev.time.seconds == predictions.next.time.seconds ==> r == Err::<
            TideStatus,
            TideError,
        >(TideError::ZeroWidthBracket),
        predictions.prev.time.seconds < predictions.next.time.seconds ==> (r matches Ok(st) && {
            let level = spec_level(
                predictions.prev.tide_micrometers as int,
                predictions.next.tide_micrometers as int,
                predictions.prev.time.seconds as int,
                predictions.next.time.seconds as int,
                current_time.seconds as int,
            );
            &&& st.level_micrometers == level
            &&& st.coming_in == predictions.spec_coming_in()
            &&& st.delta_micrometers == predictions.next.tide_micrometers - level
        }),
{
    match approximate_current_level(predictions, current_time) {
        Err(e) => Err(e),
        Ok(level) => {
            let coming_in = predictions.tide_is_coming_in();
            let delta: i64 = predictions.next.tide_micrometers - level;
            Ok(TideStatus { level_micrometers: level, coming_in, delta_micrometers: delta })
        },
    }
}

/// Interpolation round-trip: the half-cosine lobe through a bracket
/// passes exactly through both of its endpoints - at the previous
/// extremum's time the level is the previous height, and at the next
/// extremum's time it is the next height.
pub proof fn lemma_level_matches_endpoints(f0: int, f1: int, t0: int, t1: int)
    requires
        t0 < t1,
    ensures
        spec_level(f0, f1, t0, t1, t0) == f0,
        spec_level(f0, f1, t0, t1, t1) == f1,
{
    let span = t1 - t0;
    assert((t0 - t0) * (PI_FP as int) == 0);
    vstd::arithmetic::div_mod::lemma_div_of0(span);
    assert(spec_phase(t0, t1, t0) == 0);
    vstd::arithmetic::div_mod::lemma_div_multiples_vanish(PI_FP as int, span);
    assert((t1 - t0) * (PI_FP as int) == span * (PI_FP as int));
    assert(spec_phase(t0, t1, t1) == PI_FP as int);
    crate::trig::lemma_cos_pi_ends();
    let s2 = 2 * (SCALE as int);
    vstd::arithmetic::div_mod::lemma_div_of0(s2);
    if f0 >= f1 {
        vstd::arithmetic::div_mod::lemma_div_multiples_vanish(f0 - f1, s2);
        assert((f0 - f1) * ((SCALE as int) + (SCALE as int)) == s2 * (f0 - f1));
        assert((f0 - f1) * ((SCALE as int) + -(SCALE as int)) == 0);
    } else {
        vstd::arithmetic::div_mod::lemma_div_multiples_vanish(f1 - f0, s2);
        assert((f1 - f0) * ((SCALE as int) + (SCALE as int)) == s2 * (f1 - f0));
        assert((f1 - f0) * ((SCALE as int) + -(SCALE as int)) == 0);
    }
}

} // verus!
