use raytracer::rtweekend::{random_double, unit_fraction};
use raytracer::scalar::Scalar;

fn f(x: Scalar) -> f64 {
    f64::from_bits(x.to_bits())
}

#[test]
fn unit_fraction_is_exact() {
    let two_to_32 = 4294967296.0f64;
    for n in [0u32, 1, 2, 3, 255, 256, 65535, 65536, 0x7fff_ffff, 0x8000_0000, 0xffff_fffe, u32::MAX] {
        assert_eq!(unit_fraction(n).to_bits(), (n as f64 / two_to_32).to_bits(), "{n}");
    }
    let mut n: u32 = 1;
    loop {
        assert_eq!(unit_fraction(n).to_bits(), (n as f64 / two_to_32).to_bits(), "{n}");
        match n.checked_mul(3) {
            Some(next) => n = next + 1,
            None => break,
        }
    }
}

#[test]
fn unit_fraction_at_exact_values() {
    assert_eq!(f(unit_fraction(0)), 0.0);
    assert_eq!(f(unit_fraction(0x8000_0000)), 0.5);
    assert_eq!(f(unit_fraction(0x4000_0000)), 0.25);
    assert_eq!(f(unit_fraction(0xc000_0000)), 0.75);
    assert_eq!(f(unit_fraction(1)), 2.3283064365386963e-10);
    assert_eq!(f(unit_fraction(u32::MAX)), 0.9999999997671694);
    assert!(f(unit_fraction(u32::MAX)) < 1.0);
}

#[test]
fn random_double_is_a_fraction_below_one() {
    let mut seen: Vec<u64> = Vec::new();
    for _ in 0..1000 {
        let x = random_double();
        let number = f(x);
        assert!(number >= 0.0);
        assert!(number < 1.0);
        assert!(!x.is_nan());
        assert!(!x.is_sign_negative());
        let scaled = number * 4294967296.0;
        assert_eq!(scaled, scaled.floor());
        if !seen.contains(&x.to_bits()) {
            seen.push(x.to_bits());
        }
    }
    assert!(seen.len() > 900);
}
