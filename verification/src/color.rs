//! From a colour to the text of a pixel in a plain PPM image.
use crate::rtweekend::{clamp, clamp_spec};
use crate::scalar::{magnitude_units, Scalar, HIDDEN_BIT};
use crate::vec3::Color;
use vstd::arithmetic::div_mod::{lemma_basic_div, lemma_div_denominator, lemma_div_multiples_vanish};
use vstd::arithmetic::power2::{
    lemma2_to64, lemma2_to64_rest, lemma_pow2_adds, lemma_pow2_pos, lemma_pow2_strictly_increases,
    pow2,
};
use vstd::bits::lemma_u64_shr_is_div;
use vstd::prelude::*;

verus! {

/// The bit pattern of 0.999, the brightest that a channel gets.
pub const NEAR_ONE_BITS: u64 = 0x3fef_f7ce_d916_872b;

/// The level from 0 to 255 of a channel of brightness `x`: `x` is held to the
/// range from 0 to 0.999, multiplied by 256, and what follows the point is
/// dropped. A NaN gives 0.
pub open spec fn channel_spec(x: Scalar) -> int {
    let held = clamp_spec(x, Scalar { bits: 0 }, Scalar { bits: NEAR_ONE_BITS });
    if held.is_nan_spec() {
        0
    } else {
        levels_below(held.units())
    }
}

/// 256 times a number, rounded down, for a number given in units of 2^-1074.
pub open spec fn levels_below(units: int) -> int {
    (256 * units) / (pow2(1074) as int)
}

/// For a number below one, 256 times the number, rounded down, read off the
/// bit pattern: nothing where the exponent is too small, else the leading
/// bits of the significand.
pub proof fn lemma_levels_below_from_bits(m: u64)
    requires
        m / HIDDEN_BIT <= 1022,
    ensures
        m / HIDDEN_BIT < 1015 ==> levels_below(magnitude_units(m) as int) == 0,
        m / HIDDEN_BIT >= 1015 ==> levels_below(magnitude_units(m) as int) == (HIDDEN_BIT + m
            % HIDDEN_BIT) as int / (pow2((1067 - m / HIDDEN_BIT) as nat) as int),
{
    let e = (m / HIDDEN_BIT) as nat;
    let f = (m % HIDDEN_BIT) as int;
    let s = HIDDEN_BIT as int + f;
    let u = magnitude_units(m) as int;
    lemma2_to64();
    lemma2_to64_rest();
    assert(pow2(52) == HIDDEN_BIT);
    assert(pow2(8) == 256);
    if e < 1015 {
        assert(u < pow2(1066)) by {
            if e == 0 {
                lemma_pow2_strictly_increases(52, 1066);
            } else {
                let p = pow2((e - 1) as nat) as int;
                lemma_pow2_pos((e - 1) as nat);
                lemma_pow2_adds(53, (e - 1) as nat);
                assert(pow2(53) == 2 * HIDDEN_BIT);
                assert(s * p < (2 * HIDDEN_BIT) * p) by (nonlinear_arith)
                    requires
                        s < 2 * HIDDEN_BIT,
                        p > 0,
                ;
                if e + 52 < 1066 {
                    lemma_pow2_strictly_increases(e + 52, 1066);
                }
            }
        }
        lemma_pow2_adds(8, 1066);
        assert(256 * u < pow2(1074));
        lemma_basic_div(256 * u, pow2(1074) as int);
    } else {
        let p = pow2((e - 1) as nat) as int;
        let a = pow2(e + 7) as int;
        let b = pow2((1067 - e) as nat) as int;
        lemma_pow2_adds(8, (e - 1) as nat);
        lemma_pow2_adds(e + 7, (1067 - e) as nat);
        lemma_pow2_pos(e + 7);
        lemma_pow2_pos((1067 - e) as nat);
        assert(256 * u == a * s) by (nonlinear_arith)
            requires
                u == s * p,
                a == 256 * p,
        ;
        lemma_div_multiples_vanish(s, a);
        lemma_div_denominator(a * s, a, b);
        assert(pow2(1074) == a * b);
    }
}

/// The level from 0 to 255 of a channel of brightness `x`. Whatever `x` is,
/// the level is in that range: 0 for a NaN and for all that is not above
/// zero, 255 for all from 0.999 on.
pub fn channel(x: Scalar) -> (level: u8)
    ensures
        level as int == channel_spec(x),
        x.is_nan_spec() || x.le_spec(Scalar { bits: 0 }) ==> level == 0,
        (Scalar { bits: NEAR_ONE_BITS }).le_spec(x) ==> level == 255,
{
    let zero = Scalar { bits: 0 };
    let near_one = Scalar { bits: NEAR_ONE_BITS };
    proof {
        zero.lemma_key_orders_units(near_one);
    }
    let held = clamp(x, zero, near_one);
    if held.is_nan() {
        return 0;
    }
    let m: u64 = held.magnitude();
    proof {
        zero.lemma_key_orders_units(held);
        held.lemma_key_orders_units(near_one);
        x.lemma_key_orders_units(zero);
        x.lemma_key_orders_units(near_one);
        assert(m <= NEAR_ONE_BITS);
        assert(held.units() == magnitude_units(m));
        lemma_levels_below_from_bits(m);
    }
    let e: u64 = m / HIDDEN_BIT;
    if e < 1015 {
        0
    } else {
        let sig: u64 = HIDDEN_BIT + m % HIDDEN_BIT;
        let shift: u64 = 1067 - e;
        proof {
            lemma_u64_shr_is_div(sig, shift);
            assert((sig >> shift) < 256) by (bit_vector)
                requires
                    sig < 0x20_0000_0000_0000,
                    45 <= shift <= 52,
            ;
            assert(0x1f_f7ce_d916_872bu64 >> 45u64 == 255) by (bit_vector);
        }
        (sig >> shift) as u8
    }
}

/// The decimal digits of `n` in ASCII, without leading zeros.
pub open spec fn decimal(n: nat) -> Seq<u8>
    decreases n,
{
    if n < 10 {
        seq![(48 + n) as u8]
    } else {
        decimal(n / 10).push((48 + n % 10) as u8)
    }
}

/// The number that a row of ASCII digits spells.
pub open spec fn decimal_value(digits: Seq<u8>) -> nat
    decreases digits.len(),
{
    if digits.len() == 0 {
        0
    } else {
        (decimal_value(digits.drop_last()) * 10 + (digits.last() - 48)) as nat
    }
}

/// `decimal(n)` is made of digits, starts with a zero only where `n` is zero,
/// and spells `n`.
pub proof fn lemma_decimal_spells(n: nat)
    ensures
        decimal(n).len() >= 1,
        forall|i: int| 0 <= i < decimal(n).len() ==> 48 <= #[trigger] decimal(n)[i] <= 57,
        decimal(n)[0] == 48 <==> n == 0,
        decimal_value(decimal(n)) == n,
    decreases n,
{
    if n < 10 {
        assert(decimal(n).drop_last() =~= Seq::<u8>::empty());
        assert(decimal_value(Seq::<u8>::empty()) == 0);
    } else {
        lemma_decimal_spells(n / 10);
        assert(decimal(n).drop_last() =~= decimal(n / 10));
    }
}

/// Appends the decimal digits of `n` to `out`.
pub fn write_decimal(out: &mut Vec<u8>, n: u32)
    ensures
        final(out)@ == old(out)@ + decimal(n as nat),
    decreases n,
{
    if n >= 10 {
        write_decimal(out, n / 10);
    }
    out.push(48 + (n % 10) as u8);
    proof {
        assert(out@ =~= old(out)@ + decimal(n as nat));
    }
}

/// The line of a pixel: its three levels in decimal with a space between
/// them, and a line feed.
pub open spec fn pixel_line(red: nat, green: nat, blue: nat) -> Seq<u8> {
    decimal(red) + seq![32u8] + decimal(green) + seq![32u8] + decimal(blue) + seq![10u8]
}

/// Appends to `out` the line of a pixel of colour `pixel_color`, which is the
/// mean of the pixel's samples after gamma correction.
pub fn write_color(out: &mut Vec<u8>, pixel_color: Color)
    ensures
        final(out)@ == old(out)@ + pixel_line(
            channel_spec(pixel_color.e.0) as nat,
            channel_spec(pixel_color.e.1) as nat,
            channel_spec(pixel_color.e.2) as nat,
        ),
{
    let red = channel(*pixel_color.x());
    let green = channel(*pixel_color.y());
    let blue = channel(*pixel_color.z());
    write_decimal(out, red as u32);
    out.push(32);
    write_decimal(out, green as u32);
    out.push(32);
    write_decimal(out, blue as u32);
    out.push(10);
    proof {
        assert(out@ =~= old(out)@ + pixel_line(red as nat, green as nat, blue as nat));
    }
}

/// The header of a plain PPM image: the magic number, the width and the
/// height, and the highest level, each on a line of its own but for the two
/// sizes, which share one.
pub open spec fn header(width: nat, height: nat) -> Seq<u8> {
    seq![80u8, 51u8, 10u8] + decimal(width) + seq![32u8] + decimal(height) + seq![
        10u8,
        50u8,
        53u8,
        53u8,
        10u8,
    ]
}

/// Appends to `out` the header of an image of `width` by `height` pixels.
pub fn write_header(out: &mut Vec<u8>, width: u32, height: u32)
    ensures
        final(out)@ == old(out)@ + header(width as nat, height as nat),
{
    out.push(80);
    out.push(51);
    out.push(10);
    write_decimal(out, width);
    out.push(32);
    write_decimal(out, height);
    out.push(10);
    out.push(50);
    out.push(53);
    out.push(53);
    out.push(10);
    proof {
        assert(out@ =~= old(out)@ + header(width as nat, height as nat));
    }
}

} // verus!
