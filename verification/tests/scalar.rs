use raytracer::rtweekend::{clamp, infinity};
use raytracer::scalar::Scalar;

fn s(x: f64) -> Scalar {
    Scalar::from_bits(x.to_bits())
}

fn samples() -> Vec<f64> {
    vec![
        0.0,
        -0.0,
        1.0,
        -1.0,
        0.5,
        0.999,
        0.0001,
        2.0,
        -2.5,
        1.0e-310,
        -1.0e-310,
        f64::MIN_POSITIVE,
        5e-324,
        -5e-324,
        f64::MAX,
        f64::MIN,
        f64::INFINITY,
        f64::NEG_INFINITY,
        f64::NAN,
        -f64::NAN,
        1.0 / 3.0,
        16.0 / 9.0,
        255.744,
    ]
}

#[test]
fn bits_round_trip() {
    for x in samples() {
        assert_eq!(s(x).to_bits(), x.to_bits());
    }
    assert_eq!(Scalar::from_bits(0x3ff0_0000_0000_0000).to_bits(), 1.0f64.to_bits());
}

#[test]
fn less_than_agrees_with_the_hardware() {
    for a in samples() {
        for b in samples() {
            assert_eq!(s(a).lt(s(b)), a < b, "{a} < {b}");
        }
    }
}

#[test]
fn less_or_equal_agrees_with_the_hardware() {
    for a in samples() {
        for b in samples() {
            assert_eq!(s(a).le(s(b)), a <= b, "{a} <= {b}");
        }
    }
}

#[test]
fn equality_agrees_with_the_hardware() {
    for a in samples() {
        for b in samples() {
            assert_eq!(s(a) == s(b), a == b, "{a} == {b}");
        }
    }
}

#[test]
fn the_two_zeros_are_equal_and_a_nan_is_not_itself() {
    assert!(s(0.0) == s(-0.0));
    assert!(!s(0.0).lt(s(-0.0)));
    assert!(!s(-0.0).lt(s(0.0)));
    assert!(s(f64::NAN) != s(f64::NAN));
    assert!(!s(f64::NAN).le(s(f64::NAN)));
}

#[test]
fn negation_flips_the_sign_bit() {
    for x in samples() {
        assert_eq!((-s(x)).to_bits(), (-x).to_bits());
    }
    assert_eq!((-s(1.0)).to_bits(), 0xbff0_0000_0000_0000);
    assert_eq!((-s(0.0)).to_bits(), 0x8000_0000_0000_0000);
}

#[test]
fn classification_agrees_with_the_hardware() {
    for x in samples() {
        assert_eq!(s(x).is_nan(), x.is_nan());
        assert_eq!(s(x).is_sign_negative(), x.is_sign_negative());
        assert_eq!(s(x).magnitude(), x.abs().to_bits());
    }
}

#[test]
fn infinity_is_above_every_finite_number() {
    assert_eq!(infinity().to_bits(), f64::INFINITY.to_bits());
    assert!(s(f64::MAX).lt(infinity()));
    assert!(infinity().le(infinity()));
}

fn clamp_by_hand(x: f64, min: f64, max: f64) -> f64 {
    if x < min {
        min
    } else if x > max {
        max
    } else {
        x
    }
}

#[test]
fn clamp_agrees_with_the_hardware() {
    for x in samples() {
        for (min, max) in [(0.0, 0.999), (-1.0, 1.0), (0.0, 0.0), (2.0, -2.0), (f64::NAN, 1.0)] {
            let got = clamp(s(x), s(min), s(max));
            assert_eq!(got.to_bits(), clamp_by_hand(x, min, max).to_bits());
        }
    }
}

#[test]
fn clamp_holds_a_number_to_the_range() {
    assert_eq!(clamp(s(-3.0), s(0.0), s(0.999)).to_bits(), 0.0f64.to_bits());
    assert_eq!(clamp(s(7.5), s(0.0), s(0.999)).to_bits(), 0.999f64.to_bits());
    assert_eq!(clamp(s(0.25), s(0.0), s(0.999)).to_bits(), 0.25f64.to_bits());
    assert!(clamp(s(f64::NAN), s(0.0), s(0.999)).is_nan());
}
