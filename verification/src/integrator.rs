//! The colour of a ray, one look at the scene at a time.
use crate::hittable::{HitRecord, Hittable};
use crate::ray::Ray;
use crate::rtweekend::{infinity, SHADOW_EPSILON_BITS};
use crate::scalar::{Scalar, INFINITY_BITS};
use crate::vec3::{Color, Vec3};
use vstd::prelude::*;

verus! {

/// What the colour of a ray comes to.
#[derive(Clone, Copy, Debug)]
pub enum Radiance {
    /// This colour.
    Known(Color),
    /// Half the colour of a ray that leaves the hit in a random direction of
    /// the hemisphere around the hit's normal, and that may bounce as often as
    /// the number says.
    Bounce(HitRecord, i32),
    /// The colour of the sky in the ray's direction.
    Sky,
}

/// The colour of a ray that may still bounce `depth` times and that finds
/// `hit` in the scene. A ray that may bounce no more is black.
pub open spec fn ray_color_step_spec(depth: i32, hit: Option<HitRecord>) -> Radiance {
    if depth <= 0 {
        Radiance::Known(Vec3::from_bits_spec(0, 0, 0))
    } else {
        match hit {
            Some(rec) => Radiance::Bounce(rec, (depth - 1) as i32),
            None => Radiance::Sky,
        }
    }
}

/// The colour of a ray that may still bounce `depth` times and that finds
/// `hit` in the scene.
pub fn ray_color_step(depth: i32, hit: Option<HitRecord>) -> (res: Radiance)
    ensures
        res == ray_color_step_spec(depth, hit),
{
    if depth <= 0 {
        return Radiance::Known(Color::new());
    }
    match hit {
        Some(rec) => Radiance::Bounce(rec, depth - 1),
        None => Radiance::Sky,
    }
}

/// The colour of the ray `r` in the scene `world`, where the ray may still
/// bounce `depth` times. With no bounce left the ray is black, whatever the
/// scene holds. Else the scene is asked for the nearest hit from 0.0001 on,
/// so that the ray does not hit the surface that it has just left.
pub fn ray_color<H: Hittable>(r: &Ray, world: &H, depth: i32) -> (res: Radiance)
    ensures
        depth <= 0 ==> res == Radiance::Known(Vec3::from_bits_spec(0, 0, 0)),
        res == ray_color_step_spec(
            depth,
            world.hit_spec(
                *r,
                Scalar { bits: SHADOW_EPSILON_BITS },
                Scalar { bits: INFINITY_BITS },
            ),
        ),
{
    if depth <= 0 {
        return ray_color_step(depth, None);
    }
    let hit = world.hit(r, Scalar { bits: SHADOW_EPSILON_BITS }, infinity());
    ray_color_step(depth, hit)
}

} // verus!
