//! Three scalars in a row: a point, a direction or a colour.
use crate::scalar::Scalar;
use core::ops::Neg;
use vstd::prelude::*;
use vstd::std_specs::cmp::PartialEqSpecImpl;
use vstd::std_specs::ops::NegSpecImpl;

verus! {

/// A vector of three scalars.
#[derive(Clone, Copy, Debug)]
pub struct Vec3 {
    pub e: (Scalar, Scalar, Scalar),
}

/// A position in space.
pub type Point3 = Vec3;

/// Red, green and blue, in that order.
pub type Color = Vec3;

impl Vec3 {
    /// The vector whose components have the given bit patterns.
    pub open spec fn from_bits_spec(x: u64, y: u64, z: u64) -> Vec3 {
        Vec3 { e: (Scalar { bits: x }, Scalar { bits: y }, Scalar { bits: z }) }
    }

    /// The vector whose three components are positive zero.
    pub fn new() -> (v: Vec3)
        ensures
            v == Vec3::from_bits_spec(0, 0, 0),
    {
        Vec3 { e: (Scalar { bits: 0 }, Scalar { bits: 0 }, Scalar { bits: 0 }) }
    }

    /// The vector with the components `e0`, `e1` and `e2`.
    pub fn from(e0: Scalar, e1: Scalar, e2: Scalar) -> (v: Vec3)
        ensures
            v.e == (e0, e1, e2),
    {
        Vec3 { e: (e0, e1, e2) }
    }

    /// The first component.
    pub fn x(&self) -> (r: &Scalar)
        ensures
            *r == self.e.0,
    {
        &self.e.0
    }

    /// The second component.
    pub fn y(&self) -> (r: &Scalar)
        ensures
            *r == self.e.1,
    {
        &self.e.1
    }

    /// The third component.
    pub fn z(&self) -> (r: &Scalar)
        ensures
            *r == self.e.2,
    {
        &self.e.2
    }

    /// The component at `index`, which is 0, 1 or 2.
    pub open spec fn component(self, index: int) -> Scalar {
        if index == 0 {
            self.e.0
        } else if index == 1 {
            self.e.1
        } else {
            self.e.2
        }
    }

    /// Equal component by component, as IEEE `==` has it.
    pub open spec fn equals(self, other: Vec3) -> bool {
        self.e.0.equals(other.e.0) && self.e.1.equals(other.e.1) && self.e.2.equals(other.e.2)
    }

    /// Each component with its sign flipped.
    pub open spec fn negated(self) -> Vec3 {
        Vec3 { e: (self.e.0.negated(), self.e.1.negated(), self.e.2.negated()) }
    }

    /// Whether the two vectors have the same bit patterns. Unlike `==`, this
    /// holds of a vector and itself even where it holds a NaN, and tells the
    /// two zeros apart.
    pub fn same_bits(&self, other: &Vec3) -> (r: bool)
        ensures
            r == (*self == *other),
    {
        self.e.0.bits == other.e.0.bits && self.e.1.bits == other.e.1.bits && self.e.2.bits
            == other.e.2.bits
    }

    /// This vector where `along` is above zero, its opposite elsewhere.
    pub open spec fn in_hemisphere_spec(self, along: Scalar) -> Vec3 {
        if (Scalar { bits: 0 }).lt_spec(along) {
            self
        } else {
            self.negated()
        }
    }

    /// This vector or its opposite, whichever lies in the hemisphere around a
    /// normal: `along` is the dot product of this vector with that normal.
    pub fn in_hemisphere(self, along: Scalar) -> (v: Vec3)
        ensures
            v == self.in_hemisphere_spec(along),
    {
        if (Scalar { bits: 0 }).lt(along) {
            self
        } else {
            self.neg()
        }
    }

    /// The component at `index`. Only 0, 1 and 2 are indices of a vector.
    pub fn index(&self, index: i32) -> (r: &Scalar)
        requires
            0 <= index <= 2,
        ensures
            *r == self.component(index as int),
    {
        if index == 0 {
            self.x()
        } else if index == 1 {
            self.y()
        } else {
            self.z()
        }
    }
}

impl core::ops::Neg for Vec3 {
    type Output = Vec3;

    /// Each component with its sign flipped.
    fn neg(self) -> (r: Vec3) {
        Vec3 { e: (self.e.0.neg(), self.e.1.neg(), self.e.2.neg()) }
    }
}

impl NegSpecImpl for Vec3 {
    open spec fn obeys_neg_spec() -> bool {
        true
    }

    open spec fn neg_req(self) -> bool {
        true
    }

    open spec fn neg_spec(self) -> Vec3 {
        self.negated()
    }
}

impl PartialEq for Vec3 {
    /// Component by component, as IEEE `==` has it: a vector that holds a NaN
    /// equals nothing, itself included.
    fn eq(&self, other: &Vec3) -> (r: bool) {
        self.e.0 == other.e.0 && self.e.1 == other.e.1 && self.e.2 == other.e.2
    }
}

impl PartialEqSpecImpl for Vec3 {
    open spec fn obeys_eq_spec() -> bool {
        true
    }

    open spec fn eq_spec(&self, other: &Vec3) -> bool {
        self.equals(*other)
    }
}

} // verus!
