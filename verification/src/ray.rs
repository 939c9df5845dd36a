//! A ray: where it starts and which way it goes.
use crate::vec3::{Point3, Vec3};
use vstd::prelude::*;

verus! {

/// A half-line `origin + t * direction`. The direction need not have length
/// one, and may even be the zero vector.
#[derive(Clone, Copy, Debug)]
pub struct Ray {
    pub origin: Point3,
    pub direction: Vec3,
}

impl Ray {
    /// The ray from `origin` along `direction`.
    pub fn from(origin: Point3, direction: Vec3) -> (r: Ray)
        ensures
            r.origin == origin,
            r.direction == direction,
    {
        Ray { origin, direction }
    }

    /// Where the ray starts.
    pub fn origin(&self) -> (p: Point3)
        ensures
            p == self.origin,
    {
        self.origin
    }

    /// Which way the ray goes.
    pub fn direction(&self) -> (d: Vec3)
        ensures
            d == self.direction,
    {
        self.direction
    }

    /// Whether this is the very same ray: the same bit patterns throughout.
    pub fn same_bits(&self, other: &Ray) -> (r: bool)
        ensures
            r == (*self == *other),
    {
        self.origin.same_bits(&other.origin) && self.direction.same_bits(&other.direction)
    }
}

} // verus!
