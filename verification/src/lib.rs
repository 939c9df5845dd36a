//! The decision core of a small ray tracer: rays, spheres, a scene, a pinhole
//! camera, the colour of a ray, and the text of a plain PPM image.
//!
//! Every real number that crosses this library's boundary is an IEEE 754
//! binary64 value held as its bit pattern (see [`scalar::Scalar`]). The library
//! compares, negates, selects and encodes such values, and all of that is
//! proved against the number that a bit pattern denotes. It never rounds:
//! sums, products, quotients and square roots are the caller's business, and
//! each function that needs one takes it as an argument.
pub mod camera;
pub mod color;
pub mod hittable;
pub mod hittable_list;
pub mod integrator;
pub mod ray;
pub mod rtweekend;
pub mod scalar;
pub mod sphere;
pub mod vec3;
