//! What a ray finds where it meets a surface, and what it takes to be a surface.
use crate::ray::Ray;
use crate::scalar::{within, Scalar};
use crate::vec3::{Point3, Vec3};
use core::ops::Neg;
use vstd::prelude::*;

verus! {

/// Where a ray met a surface.
#[derive(Clone, Copy, Debug)]
pub struct HitRecord {
    /// The point of the hit.
    pub p: Point3,
    /// The surface normal there, turned against the incoming ray.
    pub normal: Vec3,
    /// The ray parameter of the hit.
    pub t: Scalar,
    /// Whether the ray came from outside the surface.
    pub front_face: bool,
}

impl HitRecord {
    /// A record of zeros that faces backwards.
    pub fn new() -> (rec: HitRecord)
        ensures
            rec.p == Vec3::from_bits_spec(0, 0, 0),
            rec.normal == Vec3::from_bits_spec(0, 0, 0),
            rec.t.bits == 0,
            !rec.front_face,
    {
        HitRecord { p: Point3::new(), normal: Vec3::new(), t: Scalar { bits: 0 }, front_face: false }
    }

    /// A record of a hit at `point` and parameter `hit_t`, with normal `n`,
    /// not yet oriented.
    pub fn from(point: Point3, n: Vec3, hit_t: Scalar) -> (rec: HitRecord)
        ensures
            rec == (HitRecord { p: point, normal: n, t: hit_t, front_face: false }),
    {
        HitRecord { p: point, normal: n, t: hit_t, front_face: false }
    }

    /// The ray parameter of the hit.
    pub fn t(&self) -> (t: Scalar)
        ensures
            t == self.t,
    {
        self.t
    }

    /// The point of the hit.
    pub fn p(&self) -> (p: Vec3)
        ensures
            p == self.p,
    {
        self.p
    }

    /// The surface normal at the hit.
    pub fn normal(&self) -> (n: Vec3)
        ensures
            n == self.normal,
    {
        self.normal
    }

    /// This record, oriented: `facing` is the dot product of the ray's
    /// direction with `outward_normal`. The ray comes from outside exactly
    /// when that is negative, and the stored normal opposes the ray either way.
    pub open spec fn faced(self, facing: Scalar, outward_normal: Vec3) -> HitRecord {
        let front = facing.lt_spec(Scalar { bits: 0 });
        HitRecord {
            p: self.p,
            normal: if front {
                outward_normal
            } else {
                outward_normal.negated()
            },
            t: self.t,
            front_face: front,
        }
    }

    /// Orients the record. `facing` is the dot product of the ray's direction
    /// with `outward_normal`, which the caller computes.
    #[inline]
    pub fn set_face_normal(&mut self, facing: Scalar, outward_normal: &Vec3)
        ensures
            *final(self) == old(self).faced(facing, *outward_normal),
    {
        self.front_face = facing.lt(Scalar { bits: 0 });
        self.normal = if self.front_face {
            *outward_normal
        } else {
            outward_normal.neg()
        };
    }
}

/// What is left of a hit once the range ends at `t_max`.
pub open spec fn limited(hit: Option<HitRecord>, t_max: Scalar) -> Option<HitRecord> {
    match hit {
        Some(rec) => if rec.t.le_spec(t_max) {
            hit
        } else {
            None
        },
        None => None,
    }
}

/// Anything that a ray can hit.
pub trait Hittable {
    /// What `hit` reports: a function of the surface, the ray and the range.
    /// It stands for `hit` in contracts and proofs; running code never calls it.
    spec fn hit_spec(&self, r: Ray, t_min: Scalar, t_max: Scalar) -> Option<HitRecord>;

    /// The hit of `r` on this surface with the parameter in the range from
    /// `t_min` to `t_max`, if there is one.
    fn hit(&self, r: &Ray, t_min: Scalar, t_max: Scalar) -> (res: Option<HitRecord>)
        ensures
            res == self.hit_spec(*r, t_min, t_max),
            res matches Some(rec) ==> within(rec.t, t_min, t_max),
    ;
}

/// The contract of a surface: a reported hit lies in the range asked for, and
/// it is the nearest one, so that a shorter range either keeps it or has none.
pub open spec fn reports_nearest<H: Hittable>(h: H) -> bool {
    forall|r: Ray, t_min: Scalar, t_max: Scalar|
        {
            &&& (#[trigger] h.hit_spec(r, t_min, t_max) matches Some(rec) ==> within(
                rec.t,
                t_min,
                t_max,
            ))
            &&& forall|t_end: Scalar|
                t_end.le_spec(t_max) ==> #[trigger] h.hit_spec(r, t_min, t_end) == limited(
                    h.hit_spec(r, t_min, t_max),
                    t_end,
                )
        }
}

} // verus!
