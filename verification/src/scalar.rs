//! IEEE 754 binary64 numbers as bit patterns, with the comparisons that the
//! standard defines on them.
use vstd::arithmetic::power2::{lemma_pow2_pos, lemma_pow2_strictly_increases, lemma_pow2_unfold, pow2};
use vstd::prelude::*;
use vstd::std_specs::cmp::PartialEqSpecImpl;
use vstd::std_specs::ops::NegSpecImpl;

verus! {

/// The sign bit of a binary64 bit pattern.
pub const SIGN_BIT: u64 = 0x8000_0000_0000_0000;

/// The weight of the lowest exponent bit, which is also the implicit leading
/// bit of a normal number's significand: 2^52.
pub const HIDDEN_BIT: u64 = 0x0010_0000_0000_0000;

/// The bit pattern of positive infinity. Larger magnitudes are NaNs.
pub const INFINITY_BITS: u64 = 0x7ff0_0000_0000_0000;

/// The number that a sign-free bit pattern denotes, counted in units of
/// 2^-1074 (the smallest positive binary64 number), so that it is an integer.
/// Infinity comes out as 2^2098, above every finite value.
pub open spec fn magnitude_units(m: u64) -> nat {
    let e = m / HIDDEN_BIT;
    let f = m % HIDDEN_BIT;
    if e == 0 {
        f as nat
    } else {
        (HIDDEN_BIT + f) as nat * pow2((e - 1) as nat)
    }
}

/// A larger sign-free bit pattern denotes a larger number.
pub proof fn lemma_magnitude_units_increase(a: u64, b: u64)
    requires
        a < b,
    ensures
        magnitude_units(a) < magnitude_units(b),
{
    let ea = a / HIDDEN_BIT;
    let fa = a % HIDDEN_BIT;
    let eb = b / HIDDEN_BIT;
    let fb = b % HIDDEN_BIT;
    let h = HIDDEN_BIT as int;
    assert(ea <= eb);
    if ea == eb {
        assert(fa < fb);
        if ea != 0 {
            let p = pow2((ea - 1) as nat) as int;
            lemma_pow2_pos((ea - 1) as nat);
            assert((h + fa) * p < (h + fb) * p) by (nonlinear_arith)
                requires
                    fa < fb,
                    p > 0,
            ;
        }
    } else {
        let q = pow2((eb - 1) as nat) as int;
        lemma_pow2_pos((eb - 1) as nat);
        assert(h * 1 <= (h + fb) * q) by (nonlinear_arith)
            requires
                q >= 1,
                fb >= 0,
                h >= 0,
        ;
        if ea != 0 {
            let p = pow2((ea - 1) as nat) as int;
            lemma_pow2_pos((ea - 1) as nat);
            lemma_pow2_unfold(ea as nat);
            assert(pow2(ea as nat) == 2 * p);
            if ea < eb - 1 {
                lemma_pow2_strictly_increases(ea as nat, (eb - 1) as nat);
            }
            assert(2 * p <= q);
            assert((h + fa) * p < (h + fb) * q) by (nonlinear_arith)
                requires
                    0 <= fa < h,
                    0 <= fb,
                    p > 0,
                    2 * p <= q,
            ;
        }
    }
}

/// An IEEE 754 binary64 value, held as its bit pattern.
///
/// In code, `==` between two scalars is the IEEE comparison, which `equals`
/// states. In a contract, `==` says that the two bit patterns are the same.
#[derive(Clone, Copy, Debug)]
pub struct Scalar {
    pub bits: u64,
}

impl Scalar {
    /// Whether the sign bit is set. True of negative numbers, of negative
    /// zero, and of half the NaNs.
    pub open spec fn sign_spec(self) -> bool {
        self.bits >= SIGN_BIT
    }

    /// The bit pattern without its sign bit.
    pub open spec fn magnitude_spec(self) -> u64 {
        if self.bits >= SIGN_BIT {
            (self.bits - SIGN_BIT) as u64
        } else {
            self.bits
        }
    }

    /// Whether the value is not a number.
    pub open spec fn is_nan_spec(self) -> bool {
        self.magnitude_spec() > INFINITY_BITS
    }

    /// The number denoted, in units of 2^-1074. Both zeros denote 0, and the
    /// infinities lie beyond every finite value. Meaningless for a NaN.
    pub open spec fn units(self) -> int {
        if self.sign_spec() {
            -(magnitude_units(self.magnitude_spec()) as int)
        } else {
            magnitude_units(self.magnitude_spec()) as int
        }
    }

    /// The sign-magnitude reading of the bit pattern as a signed integer.
    pub open spec fn key_spec(self) -> int {
        if self.sign_spec() {
            -(self.magnitude_spec() as int)
        } else {
            self.magnitude_spec() as int
        }
    }

    /// IEEE `<`: false when either side is a NaN.
    pub open spec fn lt_spec(self, other: Scalar) -> bool {
        !self.is_nan_spec() && !other.is_nan_spec() && self.units() < other.units()
    }

    /// IEEE `<=`: false when either side is a NaN.
    pub open spec fn le_spec(self, other: Scalar) -> bool {
        !self.is_nan_spec() && !other.is_nan_spec() && self.units() <= other.units()
    }

    /// IEEE `==`: false when either side is a NaN, true of the two zeros.
    pub open spec fn equals(self, other: Scalar) -> bool {
        !self.is_nan_spec() && !other.is_nan_spec() && self.units() == other.units()
    }

    /// The same bit pattern with the other sign: IEEE negation.
    pub open spec fn negated(self) -> Scalar {
        if self.bits >= SIGN_BIT {
            Scalar { bits: (self.bits - SIGN_BIT) as u64 }
        } else {
            Scalar { bits: (self.bits + SIGN_BIT) as u64 }
        }
    }

    /// The signed keys of two bit patterns stand in the same order as the
    /// numbers that the patterns denote.
    pub proof fn lemma_key_orders_units(self, other: Scalar)
        ensures
            (self.key_spec() < other.key_spec()) == (self.units() < other.units()),
            (self.key_spec() == other.key_spec()) == (self.units() == other.units()),
    {
        let a = self.magnitude_spec();
        let b = other.magnitude_spec();
        if a < b {
            lemma_magnitude_units_increase(a, b);
        }
        if b < a {
            lemma_magnitude_units_increase(b, a);
        }
        if 0 < a {
            lemma_magnitude_units_increase(0, a);
        }
        if 0 < b {
            lemma_magnitude_units_increase(0, b);
        }
        assert(magnitude_units(0) == 0);
    }

    /// Negation turns the number around zero, keeps a NaN a NaN, and undoes
    /// itself.
    pub proof fn lemma_negated(self)
        ensures
            self.negated().units() == -self.units(),
            self.negated().is_nan_spec() == self.is_nan_spec(),
            self.negated().sign_spec() == !self.sign_spec(),
            self.negated().negated() == self,
    {
    }

    /// The value with the bit pattern `bits`.
    pub fn from_bits(bits: u64) -> (r: Scalar)
        ensures
            r.bits == bits,
    {
        Scalar { bits }
    }

    /// The bit pattern of the value.
    pub fn to_bits(self) -> (bits: u64)
        ensures
            bits == self.bits,
    {
        self.bits
    }

    /// Whether the sign bit is set.
    #[verifier::when_used_as_spec(sign_spec)]
    pub fn is_sign_negative(self) -> (r: bool)
        ensures
            r == self.sign_spec(),
    {
        self.bits >= SIGN_BIT
    }

    /// Whether the value is not a number.
    #[verifier::when_used_as_spec(is_nan_spec)]
    pub fn is_nan(self) -> (r: bool)
        ensures
            r == self.is_nan_spec(),
    {
        self.magnitude() > INFINITY_BITS
    }

    /// The bit pattern without its sign bit.
    #[verifier::when_used_as_spec(magnitude_spec)]
    pub fn magnitude(self) -> (m: u64)
        ensures
            m == self.magnitude_spec(),
    {
        if self.bits >= SIGN_BIT {
            self.bits - SIGN_BIT
        } else {
            self.bits
        }
    }

    fn key(self) -> (k: i64)
        ensures
            k == self.key_spec(),
    {
        let m: u64 = self.magnitude();
        if self.bits >= SIGN_BIT {
            -(m as i64)
        } else {
            m as i64
        }
    }

    /// IEEE `self < other`.
    #[verifier::when_used_as_spec(lt_spec)]
    pub fn lt(self, other: Scalar) -> (r: bool)
        ensures
            r == self.lt_spec(other),
    {
        proof {
            self.lemma_key_orders_units(other);
        }
        !self.is_nan() && !other.is_nan() && self.key() < other.key()
    }

    /// IEEE `self <= other`.
    #[verifier::when_used_as_spec(le_spec)]
    pub fn le(self, other: Scalar) -> (r: bool)
        ensures
            r == self.le_spec(other),
    {
        proof {
            self.lemma_key_orders_units(other);
        }
        !self.is_nan() && !other.is_nan() && self.key() <= other.key()
    }
}

/// Whether `x` lies in the closed range from `min` to `max`. No NaN lies in a
/// range, and no range has a NaN for a bound.
pub open spec fn within(x: Scalar, min: Scalar, max: Scalar) -> bool {
    min.le_spec(x) && x.le_spec(max)
}

impl PartialEq for Scalar {
    /// IEEE `==`: a NaN equals nothing, and the two zeros are equal.
    fn eq(&self, other: &Scalar) -> (r: bool) {
        proof {
            self.lemma_key_orders_units(*other);
        }
        !self.is_nan() && !other.is_nan() && self.key() == other.key()
    }
}

impl PartialEqSpecImpl for Scalar {
    open spec fn obeys_eq_spec() -> bool {
        true
    }

    open spec fn eq_spec(&self, other: &Scalar) -> bool {
        self.equals(*other)
    }
}

impl core::ops::Neg for Scalar {
    type Output = Scalar;

    /// IEEE negation: the sign bit flips, of a NaN too.
    fn neg(self) -> (r: Scalar) {
        if self.bits >= SIGN_BIT {
            Scalar { bits: self.bits - SIGN_BIT }
        } else {
            Scalar { bits: self.bits + SIGN_BIT }
        }
    }
}

impl NegSpecImpl for Scalar {
    open spec fn obeys_neg_spec() -> bool {
        true
    }

    open spec fn neg_req(self) -> bool {
        true
    }

    open spec fn neg_spec(self) -> Scalar {
        self.negated()
    }
}

} // verus!
