//! A sphere, and which of the places where a ray's line crosses it counts as
//! the hit.
use crate::hittable::{limited, reports_nearest, HitRecord, Hittable};
use crate::hittable_list::{all_report_nearest, closest_of, equally_near, lemma_closest_ignores_order};
use crate::ray::Ray;
use crate::scalar::{within, Scalar};
use crate::vec3::{Point3, Vec3};
use vstd::prelude::*;

verus! {

/// The sphere around `center` with the given radius.
#[derive(Clone, Copy, Debug)]
pub struct Sphere {
    pub center: Point3,
    pub radius: Scalar,
}

/// One of the two places where the line of a ray crosses a sphere, as the
/// caller's arithmetic found it.
#[derive(Clone, Copy, Debug)]
pub struct Crossing {
    /// The ray parameter: a root of the quadratic.
    pub t: Scalar,
    /// The point of the ray at `t`.
    pub p: Point3,
    /// From the centre to `p`, divided by the radius.
    pub outward_normal: Vec3,
    /// The dot product of the ray's direction with `outward_normal`.
    pub facing: Scalar,
}

/// What solving `|origin + t * direction - center|^2 = radius^2` for `t` gave.
#[derive(Clone, Copy, Debug)]
pub struct Crossings {
    /// The squared length of the ray's direction.
    pub a: Scalar,
    /// A quarter of the quadratic's discriminant: `half_b^2 - a * c`.
    pub discriminant: Scalar,
    /// The crossing at the root `(-half_b - sqrt(discriminant)) / a`.
    pub near: Crossing,
    /// The crossing at the root `(-half_b + sqrt(discriminant)) / a`.
    pub far: Crossing,
}

impl Crossing {
    /// The record of a hit at this crossing, with its normal turned against
    /// the ray.
    pub open spec fn record_spec(self) -> HitRecord {
        (HitRecord { p: self.p, normal: self.outward_normal, t: self.t, front_face: false }).faced(
            self.facing,
            self.outward_normal,
        )
    }

    /// The record of a hit at this crossing, with its normal turned against
    /// the ray.
    pub fn record(&self) -> (rec: HitRecord)
        ensures
            rec == self.record_spec(),
    {
        let mut rec = HitRecord::from(self.p, self.outward_normal, self.t);
        rec.set_face_normal(self.facing, &self.outward_normal);
        rec
    }
}

/// The crossing with the smaller parameter among those of `near` and `far`
/// that lie in the range, `near` where both are equally near.
pub open spec fn nearest_within(near: Crossing, far: Crossing, t_min: Scalar, t_max: Scalar)
    -> Option<Crossing> {
    if within(near.t, t_min, t_max) && !(within(far.t, t_min, t_max) && far.t.lt_spec(near.t)) {
        Some(near)
    } else if within(far.t, t_min, t_max) {
        Some(far)
    } else {
        None
    }
}

impl Sphere {
    /// The sphere of radius zero at the origin.
    pub fn new() -> (s: Sphere)
        ensures
            s.center == Vec3::from_bits_spec(0, 0, 0),
            s.radius.bits == 0,
    {
        Sphere { center: Point3::new(), radius: Scalar { bits: 0 } }
    }

    /// The sphere around `cen` with radius `r`.
    pub fn from(cen: Point3, r: Scalar) -> (s: Sphere)
        ensures
            s.center == cen,
            s.radius == r,
    {
        Sphere { center: cen, radius: r }
    }

    /// Whether a ray with these crossings can hit this sphere at all. It
    /// cannot where the sphere has no extent, where the ray has no direction,
    /// or where the line passes the sphere by.
    pub open spec fn can_hit(self, found: Crossings) -> bool {
        let zero = Scalar { bits: 0 };
        !self.radius.equals(zero) && !found.a.equals(zero) && !found.discriminant.lt_spec(zero)
    }

    /// The hit of a ray with the given crossings, with the parameter in the
    /// range from `t_min` to `t_max`.
    pub open spec fn hit_spec(self, found: Crossings, t_min: Scalar, t_max: Scalar) -> Option<
        HitRecord,
    > {
        if self.can_hit(found) {
            match nearest_within(found.near, found.far, t_min, t_max) {
                Some(crossing) => Some(crossing.record_spec()),
                None => None,
            }
        } else {
            None
        }
    }

    /// The hit of a ray on this sphere. `found` holds what the quadratic for
    /// the ray and this sphere gave; this function decides which crossing, if
    /// any, is the hit: the nearer one of those in the range from `t_min` to
    /// `t_max`. A sphere of radius zero and a ray of direction zero hit nothing.
    pub fn hit(&self, found: &Crossings, t_min: Scalar, t_max: Scalar) -> (res: Option<HitRecord>)
        ensures
            res == self.hit_spec(*found, t_min, t_max),
            found.discriminant.lt_spec(Scalar { bits: 0 }) ==> res is None,
            res matches Some(rec) ==> within(rec.t, t_min, t_max) && (rec.t == found.near.t
                || rec.t == found.far.t),
            self.can_hit(*found) && (within(found.near.t, t_min, t_max) || within(
                found.far.t,
                t_min,
                t_max,
            )) ==> res is Some,
    {
        let zero = Scalar { bits: 0 };
        if self.radius == zero || found.a == zero || found.discriminant.lt(zero) {
            return None;
        }
        let near_in = t_min.le(found.near.t) && found.near.t.le(t_max);
        let far_in = t_min.le(found.far.t) && found.far.t.le(t_max);
        if near_in && !(far_in && found.far.t.lt(found.near.t)) {
            Some(found.near.record())
        } else if far_in {
            Some(found.far.record())
        } else {
            None
        }
    }

    /// A sphere keeps the contract of a surface: its hit lies in the range
    /// asked for, and over a shorter range the same hit is found, or none.
    pub proof fn lemma_hit_keeps_contract(
        self,
        found: Crossings,
        t_min: Scalar,
        t_max: Scalar,
        t_end: Scalar,
    )
        requires
            t_end.le_spec(t_max),
        ensures
            self.hit_spec(found, t_min, t_max) matches Some(rec) ==> within(rec.t, t_min, t_max),
            self.hit_spec(found, t_min, t_end) == limited(
                self.hit_spec(found, t_min, t_max),
                t_end,
            ),
    {
    }
}

/// A sphere as one ray finds it: the sphere, the ray, and the crossings of
/// the two. It is a surface for that ray, and for no other.
#[derive(Clone, Copy, Debug)]
pub struct Solved {
    pub sphere: Sphere,
    pub ray: Ray,
    pub found: Crossings,
}

impl Solved {
    /// The sphere `sphere` with the crossings `found` of the ray `r`.
    pub fn from(sphere: Sphere, r: Ray, found: Crossings) -> (s: Solved)
        ensures
            s == (Solved { sphere, ray: r, found }),
    {
        Solved { sphere, ray: r, found }
    }

    /// A solved sphere keeps the contract of a surface, whatever its
    /// crossings are.
    pub proof fn lemma_reports_nearest(self)
        ensures
            reports_nearest(self),
    {
        assert forall|r: Ray, t_min: Scalar, t_max: Scalar|
            {
                &&& (#[trigger] self.hit_spec(r, t_min, t_max) matches Some(rec) ==> within(
                    rec.t,
                    t_min,
                    t_max,
                ))
                &&& forall|t_end: Scalar|
                    t_end.le_spec(t_max) ==> #[trigger] self.hit_spec(r, t_min, t_end) == limited(
                        self.hit_spec(r, t_min, t_max),
                        t_end,
                    )
            } by {
            assert forall|t_end: Scalar| t_end.le_spec(t_max) implies #[trigger] self.hit_spec(
                r,
                t_min,
                t_end,
            ) == limited(self.hit_spec(r, t_min, t_max), t_end) by {
                self.sphere.lemma_hit_keeps_contract(self.found, t_min, t_max, t_end);
            }
        }
    }
}

impl Hittable for Solved {
    open spec fn hit_spec(&self, r: Ray, t_min: Scalar, t_max: Scalar) -> Option<HitRecord> {
        if r == self.ray {
            self.sphere.hit_spec(self.found, t_min, t_max)
        } else {
            None
        }
    }

    /// The hit of the sphere's own ray, and none of any other ray.
    fn hit(&self, r: &Ray, t_min: Scalar, t_max: Scalar) -> (res: Option<HitRecord>) {
        if r.same_bits(&self.ray) {
            self.sphere.hit(&self.found, t_min, t_max)
        } else {
            None
        }
    }
}

/// Whichever way solved spheres are ordered in a scene, a ray finds the
/// nearest of their hits: the two scenes are hit or missed together, and at
/// the same parameter.
pub proof fn lemma_spheres_ignore_order(
    first: Seq<Solved>,
    second: Seq<Solved>,
    r: Ray,
    t_min: Scalar,
    t_max: Scalar,
)
    requires
        first.to_multiset() == second.to_multiset(),
    ensures
        equally_near(closest_of(first, r, t_min, t_max), closest_of(second, r, t_min, t_max)),
{
    assert(all_report_nearest(first)) by {
        assert forall|i: int| 0 <= i < first.len() implies reports_nearest(#[trigger] first[i]) by {
            first[i].lemma_reports_nearest();
        }
    }
    lemma_closest_ignores_order(first, second, r, t_min, t_max);
}

} // verus!
