use raytracer::color::{channel, write_color, write_decimal, write_header};
use raytracer::scalar::Scalar;
use raytracer::vec3::Color;

fn s(x: f64) -> Scalar {
    Scalar::from_bits(x.to_bits())
}

fn clamp_by_hand(x: f64, min: f64, max: f64) -> f64 {
    if x < min {
        min
    } else if x > max {
        max
    } else {
        x
    }
}

fn level_by_hand(x: f64) -> i32 {
    (256.0 * clamp_by_hand(x, 0.0, 0.999)) as i32
}

fn line(r: f64, g: f64, b: f64) -> String {
    let mut out: Vec<u8> = Vec::new();
    write_color(&mut out, Color::from(s(r), s(g), s(b)));
    String::from_utf8(out).unwrap()
}

#[test]
fn channel_agrees_with_the_hardware() {
    let mut x = 0.0f64;
    while x <= 1.0 {
        assert_eq!(channel(s(x)) as i32, level_by_hand(x), "{x}");
        x += 1.0 / 4096.0 + 1.0e-7;
    }
    for x in [
        0.0,
        -0.0,
        5e-324,
        1.0e-310,
        0.00390624,
        0.00390625,
        0.00390626,
        0.0078125,
        0.49999999,
        0.5,
        0.998,
        0.999,
        0.9990000001,
        1.0,
        1.5,
        -0.25,
        1.0e300,
        f64::INFINITY,
        f64::NEG_INFINITY,
        f64::NAN,
    ] {
        assert_eq!(channel(s(x)) as i32, level_by_hand(x), "{x}");
    }
}

#[test]
fn channel_levels_at_exact_values() {
    assert_eq!(channel(s(0.0)), 0);
    assert_eq!(channel(s(0.5)), 128);
    assert_eq!(channel(s(0.25)), 64);
    assert_eq!(channel(s(0.75)), 192);
    assert_eq!(channel(s(0.999)), 255);
    assert_eq!(channel(s(1.0)), 255);
    assert_eq!(channel(s(1.0 / 256.0)), 1);
    assert_eq!(channel(s(0.0039)), 0);
}

#[test]
fn channel_holds_what_is_out_of_range() {
    assert_eq!(channel(s(-1.0)), 0);
    assert_eq!(channel(s(-1.0e300)), 0);
    assert_eq!(channel(s(2.0)), 255);
    assert_eq!(channel(s(1.0e300)), 255);
    assert_eq!(channel(s(f64::INFINITY)), 255);
    assert_eq!(channel(s(f64::NEG_INFINITY)), 0);
    assert_eq!(channel(s(f64::NAN)), 0);
}

#[test]
fn red_is_written_as_255_0_0() {
    assert_eq!(line(1.0, 0.0, 0.0), "255 0 0\n");
}

#[test]
fn black_is_written_as_0_0_0() {
    assert_eq!(line(0.0, 0.0, 0.0), "0 0 0\n");
}

#[test]
fn out_of_range_colours_are_written_within_0_and_255() {
    assert_eq!(line(-3.0, 17.0, f64::NAN), "0 255 0\n");
    assert_eq!(line(0.5, 0.25, 0.75), "128 64 192\n");
}

#[test]
fn write_color_appends() {
    let mut out: Vec<u8> = Vec::new();
    write_color(&mut out, Color::from(s(1.0), s(0.0), s(0.0)));
    write_color(&mut out, Color::from(s(0.0), s(0.5), s(0.04)));
    assert_eq!(String::from_utf8(out).unwrap(), "255 0 0\n0 128 10\n");
}

#[test]
fn decimal_digits() {
    for n in [0u32, 1, 9, 10, 11, 99, 100, 255, 400, 225, 1000, 65535, 4294967295] {
        let mut out: Vec<u8> = Vec::new();
        write_decimal(&mut out, n);
        assert_eq!(String::from_utf8(out).unwrap(), format!("{}", n));
    }
}

#[test]
fn header_of_a_400_by_225_image() {
    let mut out: Vec<u8> = Vec::new();
    write_header(&mut out, 400, 225);
    assert_eq!(String::from_utf8(out).unwrap(), "P3\n400 225\n255\n");
}

#[test]
fn header_then_pixels() {
    let mut out: Vec<u8> = Vec::new();
    write_header(&mut out, 1, 2);
    write_color(&mut out, Color::from(s(1.0), s(1.0), s(1.0)));
    write_color(&mut out, Color::from(s(0.0), s(0.0), s(0.0)));
    assert_eq!(String::from_utf8(out).unwrap(), "P3\n1 2\n255\n255 255 255\n0 0 0\n");
}
