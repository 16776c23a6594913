use wtiirn::trig::acos_fp;
use wtiirn::trig::cos_fp;
use wtiirn::trig::deg_to_rad;
use wtiirn::trig::sin_fp;
use wtiirn::trig::HALF_PI_FP;
use wtiirn::trig::PI_FP;
use wtiirn::trig::TWO_PI_FP;
use wtiirn::SCALE;

fn close(a: i128, b: i128, tolerance: i128) {
    assert!((a - b).abs() <= tolerance, "{} vs {}", a, b);
}

#[test]
fn cosine_hits_the_cardinal_angles() {
    assert_eq!(cos_fp(0), SCALE);
    assert_eq!(cos_fp(PI_FP), -SCALE);
    assert_eq!(cos_fp(TWO_PI_FP), SCALE);
    assert_eq!(cos_fp(-PI_FP), -SCALE);
    // Near zero at a quarter turn, within a few fixed-point units.
    close(cos_fp(HALF_PI_FP), 0, 10);
    // cos(pi/3) = 1/2.
    close(cos_fp(PI_FP / 3), SCALE / 2, 10);
}

#[test]
fn sine_hits_the_cardinal_angles() {
    assert_eq!(sin_fp(0), 0);
    close(sin_fp(HALF_PI_FP), SCALE, 10);
    close(sin_fp(-HALF_PI_FP), -SCALE, 10);
    close(sin_fp(PI_FP), 0, 10);
    // sin(pi/6) = 1/2.
    close(sin_fp(PI_FP / 6), SCALE / 2, 10);
}

#[test]
fn arc_cosine_inverts_the_cosine() {
    // The cosine is flat near 0 and pi, so the inverse is only exact
    // to about the square root of the fixed-point resolution there:
    // some 5e-9 radians, or a few centimeters of arc on the Earth.
    close(acos_fp(SCALE), 0, 1_000_000_000);
    close(acos_fp(-SCALE), PI_FP, 1_000_000_000);
    close(acos_fp(0), HALF_PI_FP, 1_000_000_000);
    // Round trips through well-conditioned angles.
    for k in 1..6 {
        let theta = k * PI_FP / 6;
        let recovered = acos_fp(cos_fp(theta));
        close(recovered, theta, 1_000_000_000);
    }
}

#[test]
fn degrees_convert_to_radians() {
    assert_eq!(deg_to_rad(0), 0);
    close(deg_to_rad(180_000_000), PI_FP, 2);
    close(deg_to_rad(-180_000_000), -PI_FP, 2);
    close(deg_to_rad(90_000_000), HALF_PI_FP, 2);
    close(deg_to_rad(360_000_000), TWO_PI_FP, 2);
}
