use raytracer::scalar::Scalar;
use raytracer::vec3::Vec3;

fn s(x: f64) -> Scalar {
    Scalar::from_bits(x.to_bits())
}

#[test]
fn basic_ops() {
    let vec1 = Vec3::from(s(1f64), s(2f64), s(3f64));
    assert_eq!(s(1f64), *vec1.x());
    assert_eq!(s(2f64), *vec1.y());
    assert_eq!(s(3f64), *vec1.z());

    assert_eq!(s(1f64), *vec1.index(0));
    assert_eq!(s(2f64), *vec1.index(1));
    assert_eq!(s(3f64), *vec1.index(2));

    let vec2 = -vec1;

    assert_eq!(s(-1f64), *vec2.x());
    assert_eq!(s(-2f64), *vec2.y());
    assert_eq!(s(-3f64), *vec2.z());
}

#[test]
fn new_vector_is_zero() {
    let v = Vec3::new();
    assert_eq!(v.x().to_bits(), 0);
    assert_eq!(v.y().to_bits(), 0);
    assert_eq!(v.z().to_bits(), 0);
    assert_eq!(v, Vec3::from(s(0.0), s(-0.0), s(0.0)));
}

#[test]
fn vectors_are_equal_by_components() {
    let a = Vec3::from(s(1.0), s(-2.0), s(1.0));
    let b = Vec3::from(s(1.0), s(-2.0), s(1.0));
    let c = Vec3::from(s(1.0), s(-2.0), s(1.5));
    assert_eq!(a, b);
    assert_ne!(a, c);
    let nan = Vec3::from(s(f64::NAN), s(0.0), s(0.0));
    assert_ne!(nan, nan);
}

#[test]
fn negating_twice_gives_the_vector_back() {
    let a = Vec3::from(s(0.25), s(-7.0), s(0.0));
    let back = -(-a);
    assert_eq!(back.x().to_bits(), a.x().to_bits());
    assert_eq!(back.y().to_bits(), a.y().to_bits());
    assert_eq!(back.z().to_bits(), a.z().to_bits());
    assert_eq!((-a).z().to_bits(), (-0.0f64).to_bits());
}

#[test]
fn hemisphere_keeps_or_flips() {
    let a = Vec3::from(s(0.25), s(-7.0), s(3.0));
    assert_eq!(a.in_hemisphere(s(0.5)), a);
    assert_eq!(a.in_hemisphere(s(-0.5)), -a);
    assert_eq!(a.in_hemisphere(s(0.0)), -a);
    assert_eq!(a.in_hemisphere(s(f64::NAN)), -a);
}
