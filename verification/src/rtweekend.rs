//! Constants and small helpers that the rest of the tracer shares.
use crate::scalar::{within, Scalar, HIDDEN_BIT, INFINITY_BITS};
use vstd::arithmetic::power2::{
    lemma2_to64, lemma2_to64_rest, lemma_pow2_adds, lemma_pow2_pos,
    lemma_pow2_strictly_increases, lemma_pow2_unfold, pow2,
};
use vstd::prelude::*;

verus! {

/// The bit pattern of 0.0001, below which a hit counts as the surface that the
/// ray has just left.
pub const SHADOW_EPSILON_BITS: u64 = 0x3f1a_36e2_eb1c_432d;

/// The bit pattern of 1.
pub const ONE_BITS: u64 = 0x3ff0_0000_0000_0000;

/// Positive infinity.
pub fn infinity() -> (r: Scalar)
    ensures
        r.bits == INFINITY_BITS,
{
    Scalar { bits: INFINITY_BITS }
}

/// `x` held to the range from `min` to `max`, by IEEE comparisons: a NaN
/// stays what it is.
pub open spec fn clamp_spec(x: Scalar, min: Scalar, max: Scalar) -> Scalar {
    if x.lt_spec(min) {
        min
    } else if max.lt_spec(x) {
        max
    } else {
        x
    }
}

/// `min` where `x` is below it, `max` where `x` is above it, else `x`.
#[inline]
pub fn clamp(x: Scalar, min: Scalar, max: Scalar) -> (r: Scalar)
    ensures
        r == clamp_spec(x, min, max),
        min.le_spec(max) && !x.is_nan_spec() ==> within(r, min, max),
        within(x, min, max) ==> r == x,
{
    if x.lt(min) {
        min
    } else if max.lt(x) {
        max
    } else {
        x
    }
}

/// Whether `r` is the number `n / 2^32`, which binary64 holds exactly.
pub open spec fn is_fraction_of(r: Scalar, n: u32) -> bool {
    !r.is_nan_spec() && !r.sign_spec() && r.units() == n * pow2(1042)
}

/// The number `n / 2^32`: one of 2^32 evenly spaced numbers from 0 up to,
/// but not including, 1.
pub fn unit_fraction(n: u32) -> (r: Scalar)
    ensures
        is_fraction_of(r, n),
        (Scalar { bits: 0 }).le_spec(r),
        r.lt_spec(Scalar { bits: ONE_BITS }),
{
    proof {
        lemma2_to64();
        lemma2_to64_rest();
        lemma_pow2_adds(52, 1022);
        lemma_pow2_adds(32, 1042);
        lemma_pow2_pos(1042);
        assert(ONE_BITS / HIDDEN_BIT == 1023 && ONE_BITS % HIDDEN_BIT == 0);
        assert(n * pow2(1042) < pow2(32) * pow2(1042)) by (nonlinear_arith)
            requires
                n < pow2(32),
                pow2(1042) > 0,
        ;
    }
    if n == 0 {
        return Scalar { bits: 0 };
    }
    let mut sig: u64 = n as u64;
    let mut e: u64 = 1043;
    while sig < HIDDEN_BIT
        invariant
            1 <= sig < 2 * HIDDEN_BIT,
            991 <= e <= 1043,
            sig >= pow2((1043 - e) as nat),
            sig * pow2((e - 1) as nat) == n * pow2(1042),
        decreases e,
    {
        proof {
            lemma2_to64_rest();
            if 1043 - e >= 52 {
                if 1043 - e > 52 {
                    lemma_pow2_strictly_increases(52, (1043 - e) as nat);
                }
                assert(false);
            }
            lemma_pow2_unfold((e - 1) as nat);
            lemma_pow2_unfold((1044 - e) as nat);
            let low = pow2((e - 2) as nat) as int;
            assert((2 * sig) * low == sig * (2 * low)) by (nonlinear_arith);
        }
        sig = sig * 2;
        e = e - 1;
    }
    Scalar { bits: e * HIDDEN_BIT + (sig - HIDDEN_BIT) }
}

/// Calls `rand::random::<u32>()`, which draws a number from the generator of
/// the calling thread. Nothing is claimed of the number drawn.
#[verifier::external_body]
fn random_u32() -> (n: u32) {
    rand::random::<u32>()
}

/// A random number from 0 up to, but not including, 1: a random multiple of
/// 2^-32.
#[inline]
pub fn random_double() -> (r: Scalar)
    ensures
        exists|n: u32| is_fraction_of(r, n),
        (Scalar { bits: 0 }).le_spec(r),
        r.lt_spec(Scalar { bits: ONE_BITS }),
{
    let n = random_u32();
    unit_fraction(n)
}

} // verus!
