//! Fixed-point trigonometry.
//!
//! Angles and unit-interval values are integers scaled by `SCALE`
//! (1e17 units per radian, or per 1.0). Sine and cosine are alternating
//! Taylor sums with twelve correction terms after argument reduction to
//! the first quadrant; the arc cosine inverts the cosine by bisection.
//! Every executable function is pinned to a spec-level recurrence, so
//! the result is determined exactly by the argument.

use vstd::prelude::*;
use crate::SCALE;

verus! {

/// One half of a full turn, in fixed-point radians (pi * 1e17, rounded).
pub const PI_FP: i128 = 314_159_265_358_979_324;

/// One full turn, in fixed-point radians.
pub const TWO_PI_FP: i128 = 628_318_530_717_958_648;

/// One quarter of a full turn, in fixed-point radians.
pub const HALF_PI_FP: i128 = 157_079_632_679_489_662;

/// Number of Taylor correction terms used by sine and cosine.
pub const TAYLOR_TERMS: u64 = 12;

/// Upper bound on the reduced squared argument and on every Taylor term.
pub const TERM_BOUND: i128 = 250_000_000_000_000_000;

/// Clamp a fixed-point value into [-1, 1].
pub open spec fn spec_clamp_unit(v: int) -> int {
    if v > SCALE { SCALE as int } else if v < -SCALE { -SCALE as int } else { v }
}

/// Taylor term `k` of cosine: x^(2k) / (2k)!, in fixed point,
/// with the intermediate truncation of each step folded in.
pub open spec fn spec_cos_term(x2: int, k: nat) -> int
    decreases k,
{
    if k == 0 {
        SCALE as int
    } else {
        spec_cos_term(x2, (k - 1) as nat) * x2 / ((2 * k - 1) * (2 * k) * (SCALE as int))
    }
}

/// Alternating partial sum of the cosine series up to term `k`.
pub open spec fn spec_cos_partial(x2: int, k: nat) -> int
    decreases k,
{
    if k == 0 {
        spec_cos_term(x2, 0)
    } else if k % 2 == 1 {
        spec_cos_partial(x2, (k - 1) as nat) - spec_cos_term(x2, k)
    } else {
        spec_cos_partial(x2, (k - 1) as nat) + spec_cos_term(x2, k)
    }
}

/// Cosine on the first quadrant, clamped into [-1, 1].
pub open spec fn spec_cos_quarter(x: int) -> int {
    spec_clamp_unit(spec_cos_partial(x * x / (SCALE as int), TAYLOR_TERMS as nat))
}

/// Taylor term `k` of sine: x^(2k+1) / (2k+1)!, in fixed point.
pub open spec fn spec_sin_term(x: int, x2: int, k: nat) -> int
    decreases k,
{
    if k == 0 {
        x
    } else {
        spec_sin_term(x, x2, (k - 1) as nat) * x2 / ((2 * k) * (2 * k + 1) * (SCALE as int))
    }
}

/// Alternating partial sum of the sine series up to term `k`.
pub open spec fn spec_sin_partial(x: int, x2: int, k: nat) -> int
    decreases k,
{
    if k == 0 {
        spec_sin_term(x, x2, 0)
    } else if k % 2 == 1 {
        spec_sin_partial(x, x2, (k - 1) as nat) - spec_sin_term(x, x2, k)
    } else {
        spec_sin_partial(x, x2, (k - 1) as nat) + spec_sin_term(x, x2, k)
    }
}

/// Sine on the first quadrant, clamped into [-1, 1].
pub open spec fn spec_sin_quarter(x: int) -> int {
    spec_clamp_unit(spec_sin_partial(x, x * x / (SCALE as int), TAYLOR_TERMS as nat))
}

/// Cosine on [0, pi], by reflection into the first quadrant.
pub open spec fn spec_cos_pi(x: int) -> int {
    if x > HALF_PI_FP {
        -spec_cos_quarter(PI_FP - x)
    } else {
        spec_cos_quarter(x)
    }
}

/// Sine on [0, pi], by reflection into the first quadrant.
pub open spec fn spec_sin_pi(x: int) -> int {
    if x > HALF_PI_FP {
        spec_sin_quarter(PI_FP - x)
    } else {
        spec_sin_quarter(x)
    }
}

/// Sine on [-pi, pi], by oddness.
pub open spec fn spec_sin(x: int) -> int {
    if x < 0 {
        -spec_sin_pi(-x)
    } else {
        spec_sin_pi(x)
    }
}

/// Cosine on [-2 pi, 2 pi], by evenness and periodicity.
pub open spec fn spec_cos(x: int) -> int {
    let y = if x < 0 { -x } else { x };
    if y > PI_FP {
        spec_cos_pi(TWO_PI_FP - y)
    } else {
        spec_cos_pi(y)
    }
}

/// Bisection step for the arc cosine: narrow [lo, hi] keeping
/// cos(lo) >= y >= cos(hi), and land on hi once the fuel is spent.
pub open spec fn spec_acos_bisect(y: int, lo: int, hi: int, fuel: nat) -> int
    decreases fuel,
{
    if fuel == 0 {
        hi
    } else {
        let mid = (lo + hi) / 2;
        if spec_cos_pi(mid) >= y {
            spec_acos_bisect(y, mid, hi, (fuel - 1) as nat)
        } else {
            spec_acos_bisect(y, lo, mid, (fuel - 1) as nat)
        }
    }
}

/// Number of bisection steps: enough to pin the result to one unit.
pub const ACOS_STEPS: u64 = 60;

/// Arc cosine on [-1, 1], as the bisection limit over [0, pi].
pub open spec fn spec_acos(y: int) -> int {
    spec_acos_bisect(y, 0, PI_FP as int, ACOS_STEPS as nat)
}

/// Signed fixed-point product of two unit-interval values.
pub open spec fn spec_mul_unit(a: int, b: int) -> int {
    let m = (if a < 0 { -a } else { a }) * (if b < 0 { -b } else { b }) / (SCALE as int);
    if (a < 0) != (b < 0) {
        -m
    } else {
        m
    }
}

/// Every cosine correction term vanishes on a zero argument.
proof fn lemma_cos_term_zero(k: nat)
    ensures
        spec_cos_term(0, k) == if k == 0 { SCALE as int } else { 0 },
    decreases k,
{
    if k > 0 {
        lemma_cos_term_zero((k - 1) as nat);
        let ki = k as int;
        assert(0 < (2 * ki - 1) * (2 * ki) * (SCALE as int)) by (nonlinear_arith)
            requires 1 <= ki, 0 < SCALE as int;
        let d = (2 * k - 1) * (2 * k) * (SCALE as int);
        assert(d == (2 * ki - 1) * (2 * ki) * (SCALE as int));
        assert(spec_cos_term(0, (k - 1) as nat) * 0 == 0);
        vstd::arithmetic::div_mod::lemma_div_of0(d);
    }
}

/// The cosine series sums to exactly one on a zero argument.
proof fn lemma_cos_partial_zero(k: nat)
    ensures
        spec_cos_partial(0, k) == SCALE as int,
    decreases k,
{
    lemma_cos_term_zero(k);
    if k > 0 {
        lemma_cos_partial_zero((k - 1) as nat);
    }
}

/// The fixed-point cosine is exact at both ends of [0, pi]: one at
/// zero and minus one at pi.
pub proof fn lemma_cos_pi_ends()
    ensures
        spec_cos_pi(0) == SCALE as int,
        spec_cos_pi(PI_FP as int) == -(SCALE as int),
{
    lemma_cos_partial_zero(TAYLOR_TERMS as nat);
    vstd::arithmetic::div_mod::lemma_div_of0(SCALE as int);
    assert(0 * 0 == 0);
    assert(spec_cos_quarter(0) == SCALE as int);
}

/// Microdegrees to fixed-point radians, truncating towards zero.
pub open spec fn spec_deg_to_rad(microdeg: int) -> int {
    if microdeg < 0 {
        -((-microdeg) * (PI_FP as int) / 180_000_000)
    } else {
        microdeg * (PI_FP as int) / 180_000_000
    }
}

/// Convert a coordinate component from microdegrees to fixed-point radians.
pub fn deg_to_rad(microdeg: i64) -> (r: i128)
    requires
        -360_000_000 <= microdeg <= 360_000_000,
    ensures
        r == spec_deg_to_rad(microdeg as int),
        -TWO_PI_FP <= r <= TWO_PI_FP,
        -180_000_000 <= microdeg <= 180_000_000 ==> -PI_FP <= r <= PI_FP,
{
    let m: i128 = if microdeg < 0 { -(microdeg as i128) } else { microdeg as i128 };
    proof {
        lemma_nonneg_div_bound(m * (PI_FP as int), 360_000_000 * (PI_FP as int),
            180_000_000, 180_000_000);
        vstd::arithmetic::div_mod::lemma_div_multiples_vanish(2 * (PI_FP as int), 180_000_000);
        assert(360_000_000 * (PI_FP as int) == 180_000_000 * (2 * (PI_FP as int)));
        if -180_000_000 <= microdeg <= 180_000_000 {
            lemma_nonneg_div_bound(m * (PI_FP as int), 180_000_000 * (PI_FP as int),
                180_000_000, 180_000_000);
            vstd::arithmetic::div_mod::lemma_div_multiples_vanish(PI_FP as int, 180_000_000);
        }
    }
    let v: i128 = m * PI_FP / 180_000_000;
    if microdeg < 0 {
        -v
    } else {
        v
    }
}

/// Cosine of an angle in the first quadrant.
pub fn cos_quarter(x: i128) -> (r: i128)
    requires
        0 <= x <= HALF_PI_FP,
    ensures
        r == spec_cos_quarter(x as int),
        -SCALE <= r <= SCALE,
{
    proof {
        assert(x * x <= (HALF_PI_FP as int) * (HALF_PI_FP as int)) by (nonlinear_arith)
            requires 0 <= x <= HALF_PI_FP;
        assert((HALF_PI_FP as int) * (HALF_PI_FP as int)
            <= 246_740_110_027_233_966 * (SCALE as int));
        lemma_nonneg_div_bound(x * x, 246_740_110_027_233_966 * (SCALE as int),
            SCALE as int, SCALE as int);
        vstd::arithmetic::div_mod::lemma_div_multiples_vanish(
            246_740_110_027_233_966, SCALE as int);
    }
    let x2: i128 = x * x / SCALE;
    let mut term: i128 = SCALE;
    let mut sum: i128 = SCALE;
    let mut k: u64 = 1;
    while k <= TAYLOR_TERMS
        invariant
            1 <= k <= TAYLOR_TERMS + 1,
            0 <= x2 < TERM_BOUND,
            term == spec_cos_term(x2 as int, (k - 1) as nat),
            0 <= term <= TERM_BOUND,
            sum == spec_cos_partial(x2 as int, (k - 1) as nat),
            -(k as int) * TERM_BOUND <= sum <= (k as int) * TERM_BOUND,
        decreases TAYLOR_TERMS + 1 - k,
    {
        let kk: i128 = k as i128;
        proof {
            assert(2 * (kk as int) <= (2 * (kk as int) - 1) * (2 * (kk as int)) <= 650)
                by (nonlinear_arith)
                requires 1 <= kk as int <= 13;
        }
        let d: i128 = (2 * kk - 1) * (2 * kk) * SCALE;
        proof {
            let si = SCALE as int;
            let tb = TERM_BOUND as int;
            if k == 1 {
                assert(term == si);
                assert(0 <= term * x2 <= si * tb) by (nonlinear_arith)
                    requires term == si, 0 <= x2 <= tb, 0 <= si;
                lemma_nonneg_div_bound(term * x2, si * tb, d as int, 2 * si);
                lemma_mul_div_le(si, tb, 2 * si);
            } else {
                assert(0 <= term * x2 <= tb * tb) by (nonlinear_arith)
                    requires 0 <= term <= tb, 0 <= x2 <= tb;
                assert(12 <= (2 * (kk as int) - 1) * (2 * (kk as int))) by (nonlinear_arith)
                    requires 2 <= kk as int <= 13;
                lemma_nonneg_div_bound(term * x2, tb * tb, d as int, 12 * si);
                lemma_mul_div_le(tb, tb, 12 * si);
            }
        }
        term = term * x2 / d;
        if k % 2 == 1 {
            sum = sum - term;
        } else {
            sum = sum + term;
        }
        k = k + 1;
    }
    if sum > SCALE {
        SCALE
    } else if sum < -SCALE {
        -SCALE
    } else {
        sum
    }
}

/// Sine of an angle in the first quadrant.
pub fn sin_quarter(x: i128) -> (r: i128)
    requires
        0 <= x <= HALF_PI_FP,
    ensures
        r == spec_sin_quarter(x as int),
        -SCALE <= r <= SCALE,
{
    proof {
        assert(x * x <= (HALF_PI_FP as int) * (HALF_PI_FP as int)) by (nonlinear_arith)
            requires 0 <= x <= HALF_PI_FP;
        assert((HALF_PI_FP as int) * (HALF_PI_FP as int)
            <= 246_740_110_027_233_966 * (SCALE as int));
        lemma_nonneg_div_bound(x * x, 246_740_110_027_233_966 * (SCALE as int),
            SCALE as int, SCALE as int);
        vstd::arithmetic::div_mod::lemma_div_multiples_vanish(
            246_740_110_027_233_966, SCALE as int);
    }
    let x2: i128 = x * x / SCALE;
    let mut term: i128 = x;
    let mut sum: i128 = x;
    let mut k: u64 = 1;
    while k <= TAYLOR_TERMS
        invariant
            1 <= k <= TAYLOR_TERMS + 1,
            0 <= x <= HALF_PI_FP,
            0 <= x2 < TERM_BOUND,
            term == spec_sin_term(x as int, x2 as int, (k - 1) as nat),
            0 <= term <= TERM_BOUND,
            sum == spec_sin_partial(x as int, x2 as int, (k - 1) as nat),
            -(k as int) * TERM_BOUND <= sum <= (k as int) * TERM_BOUND,
        decreases TAYLOR_TERMS + 1 - k,
    {
        let kk: i128 = k as i128;
        proof {
            assert(6 <= (2 * (kk as int)) * (2 * (kk as int) + 1) <= 702)
                by (nonlinear_arith)
                requires 1 <= kk as int <= 13;
        }
        let d: i128 = (2 * kk) * (2 * kk + 1) * SCALE;
        proof {
            let si = SCALE as int;
            let tb = TERM_BOUND as int;
            assert(0 <= term * x2 <= tb * tb) by (nonlinear_arith)
                requires 0 <= term <= tb, 0 <= x2 <= tb;
            lemma_nonneg_div_bound(term * x2, tb * tb, d as int, 6 * si);
            lemma_mul_div_le(tb, tb, 6 * si);
        }
        term = term * x2 / d;
        if k % 2 == 1 {
            sum = sum - term;
        } else {
            sum = sum + term;
        }
        k = k + 1;
    }
    if sum > SCALE {
        SCALE
    } else if sum < -SCALE {
        -SCALE
    } else {
        sum
    }
}

/// A nonnegative quantity below `b`, divided by at least `dmin`, stays
/// below `b / dmin`.
pub proof fn lemma_nonneg_div_bound(x: int, b: int, d: int, dmin: int)
    requires
        0 <= x <= b,
        0 < dmin <= d,
    ensures
        0 <= x / d <= b / dmin,
{
    assert(0 <= x / d) by (nonlinear_arith)
        requires 0 <= x, 0 < d;
    assert(x / d <= b / dmin) by (nonlinear_arith)
        requires 0 <= x <= b, 0 < dmin <= d;
}

/// A product `a * b` divided by `d >= a` is bounded by `b`.
pub proof fn lemma_mul_div_le(a: int, b: int, d: int)
    requires
        0 <= a <= d,
        0 <= b,
        0 < d,
    ensures
        0 <= a * b / d <= b,
{
    assert(0 <= a * b <= d * b) by (nonlinear_arith)
        requires 0 <= a <= d, 0 <= b;
    lemma_nonneg_div_bound(a * b, d * b, d, d);
    vstd::arithmetic::div_mod::lemma_div_multiples_vanish(b, d);
}

/// Cosine of an angle in [0, pi].
pub fn cos_pi(x: i128) -> (r: i128)
    requires
        0 <= x <= PI_FP,
    ensures
        r == spec_cos_pi(x as int),
        -SCALE <= r <= SCALE,
{
    if x > HALF_PI_FP {
        let c = cos_quarter(PI_FP - x);
        -c
    } else {
        cos_quarter(x)
    }
}

/// Sine of an angle in [0, pi].
pub fn sin_pi(x: i128) -> (r: i128)
    requires
        0 <= x <= PI_FP,
    ensures
        r == spec_sin_pi(x as int),
        -SCALE <= r <= SCALE,
{
    if x > HALF_PI_FP {
        sin_quarter(PI_FP - x)
    } else {
        sin_quarter(x)
    }
}

/// Sine of an angle in [-pi, pi].
pub fn sin_fp(x: i128) -> (r: i128)
    requires
        -PI_FP <= x <= PI_FP,
    ensures
        r == spec_sin(x as int),
        -SCALE <= r <= SCALE,
{
    if x < 0 {
        let s = sin_pi(-x);
        -s
    } else {
        sin_pi(x)
    }
}

/// Cosine of an angle in [-2 pi, 2 pi].
pub fn cos_fp(x: i128) -> (r: i128)
    requires
        -TWO_PI_FP <= x <= TWO_PI_FP,
    ensures
        r == spec_cos(x as int),
        -SCALE <= r <= SCALE,
{
    let y: i128 = if x < 0 { -x } else { x };
    if y > PI_FP {
        cos_pi(TWO_PI_FP - y)
    } else {
        cos_pi(y)
    }
}

/// Arc cosine of a unit-interval value, in [0, pi].
pub fn acos_fp(y: i128) -> (r: i128)
    requires
        -SCALE <= y <= SCALE,
    ensures
        r == spec_acos(y as int),
        0 <= r <= PI_FP,
{
    let mut lo: i128 = 0;
    let mut hi: i128 = PI_FP;
    let mut step: u64 = 0;
    while step < ACOS_STEPS
        invariant
            0 <= step <= ACOS_STEPS,
            0 <= lo <= hi <= PI_FP,
            -SCALE <= y <= SCALE,
            spec_acos_bisect(y as int, lo as int, hi as int, (ACOS_STEPS - step) as nat)
                == spec_acos(y as int),
        decreases ACOS_STEPS - step,
    {
        let mid: i128 = (lo + hi) / 2;
        let c = cos_pi(mid);
        if c >= y {
            lo = mid;
        } else {
            hi = mid;
        }
        step = step + 1;
    }
    hi
}

/// Product of two unit-interval values, staying in the unit interval.
pub fn mul_unit(a: i128, b: i128) -> (r: i128)
    requires
        -SCALE <= a <= SCALE,
        -SCALE <= b <= SCALE,
    ensures
        r == spec_mul_unit(a as int, b as int),
        -SCALE <= r <= SCALE,
{
    let ma: i128 = if a < 0 { -a } else { a };
    let mb: i128 = if b < 0 { -b } else { b };
    proof {
        assert(0 <= ma * mb <= (SCALE as int) * (SCALE as int)) by (nonlinear_arith)
            requires 0 <= ma <= SCALE, 0 <= mb <= SCALE;
        lemma_mul_div_le(SCALE as int, SCALE as int, SCALE as int);
        lemma_nonneg_div_bound(ma * mb, (SCALE as int) * (SCALE as int), SCALE as int, SCALE as int);
    }
    let m: i128 = ma * mb / SCALE;
    if (a < 0) != (b < 0) {
        -m
    } else {
        m
    }
}

} // verus!
