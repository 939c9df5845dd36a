//! The pinhole camera: where it stands and what it looks at.
use crate::scalar::{Scalar, HIDDEN_BIT};
use crate::vec3::{Point3, Vec3};
use vstd::arithmetic::power2::{lemma2_to64_rest, lemma_pow2_adds, lemma_pow2_unfold, pow2};
use vstd::prelude::*;

verus! {

/// The bit pattern of the viewport's width, 32/9 rounded to the nearest
/// binary64 number: twice the aspect ratio of 16 to 9.
pub const VIEWPORT_WIDTH_BITS: u64 = 0x400c_71c7_1c71_c71c;

/// The bit pattern of the viewport's height, 2.
pub const VIEWPORT_HEIGHT_BITS: u64 = 0x4000_0000_0000_0000;

/// The bit pattern of minus half the viewport's width.
pub const VIEWPORT_LEFT_BITS: u64 = 0xbffc_71c7_1c71_c71c;

/// The bit pattern of -1: minus half the viewport's height, and minus the
/// focal length.
pub const MINUS_ONE_BITS: u64 = 0xbff0_0000_0000_0000;

/// What the camera's constants denote. The viewport is 2 high, and its width
/// is 16/9 of that as nearly as a binary64 number can be: within half a unit
/// in the last place of the width, which is 2^-51. It is centred on the
/// camera's axis and lies one unit down the negative z axis.
pub proof fn lemma_viewport()
    ensures
        ({
            let width = (Scalar { bits: VIEWPORT_WIDTH_BITS }).units();
            let height = (Scalar { bits: VIEWPORT_HEIGHT_BITS }).units();
            let left = (Scalar { bits: VIEWPORT_LEFT_BITS }).units();
            let minus_one = (Scalar { bits: MINUS_ONE_BITS }).units();
            let last_place = pow2(1023) as int;
            &&& height == 2 * pow2(1074)
            &&& -(9 * last_place) <= 2 * (9 * width - 16 * height) <= 9 * last_place
            &&& 2 * left == -width
            &&& minus_one == -(pow2(1074) as int)
        }),
{
    lemma2_to64_rest();
    lemma_pow2_unfold(1023);
    lemma_pow2_adds(52, 1022);
    let half_place = pow2(1022) as int;
    let last_place = pow2(1023) as int;
    let hidden = HIDDEN_BIT as int;
    let width_sig: int = 0x1c_71c7_1c71_c71c;
    let left_magnitude: u64 = 0x3ffc_71c7_1c71_c71c;
    let one_magnitude: u64 = 0x3ff0_0000_0000_0000;
    assert(VIEWPORT_WIDTH_BITS / HIDDEN_BIT == 1024);
    assert(hidden + VIEWPORT_WIDTH_BITS % HIDDEN_BIT == width_sig);
    assert(VIEWPORT_HEIGHT_BITS / HIDDEN_BIT == 1024 && VIEWPORT_HEIGHT_BITS % HIDDEN_BIT == 0);
    assert(left_magnitude / HIDDEN_BIT == 1023);
    assert(hidden + left_magnitude % HIDDEN_BIT == width_sig);
    assert(one_magnitude / HIDDEN_BIT == 1023 && one_magnitude % HIDDEN_BIT == 0);
    assert(width_sig * last_place == 2 * (width_sig * half_place)) by (nonlinear_arith)
        requires
            last_place == 2 * half_place,
    ;
    assert(hidden * last_place == 2 * (hidden * half_place)) by (nonlinear_arith)
        requires
            last_place == 2 * half_place,
    ;
    assert(9 * (width_sig * last_place) - 16 * (hidden * last_place) == -4 * last_place)
        by (nonlinear_arith)
        requires
            9 * width_sig - 16 * hidden == -4,
    ;
}

/// A camera at `origin` that looks at the rectangle which starts at
/// `lower_left_corner` and is spanned by `horizontal` and `vertical`.
#[derive(Clone, Copy, Debug)]
pub struct Camera {
    pub origin: Point3,
    pub lower_left_corner: Point3,
    pub horizontal: Vec3,
    pub vertical: Vec3,
}

impl Camera {
    /// The camera at the origin that looks down the negative z axis at a
    /// viewport one unit away, two units high and 16 to 9 in shape.
    pub fn new() -> (cam: Camera)
        ensures
            cam.origin == Vec3::from_bits_spec(0, 0, 0),
            cam.horizontal == Vec3::from_bits_spec(VIEWPORT_WIDTH_BITS, 0, 0),
            cam.vertical == Vec3::from_bits_spec(0, VIEWPORT_HEIGHT_BITS, 0),
            cam.lower_left_corner == Vec3::from_bits_spec(
                VIEWPORT_LEFT_BITS,
                MINUS_ONE_BITS,
                MINUS_ONE_BITS,
            ),
    {
        Camera {
            origin: Point3::new(),
            lower_left_corner: Point3::from(
                Scalar { bits: VIEWPORT_LEFT_BITS },
                Scalar { bits: MINUS_ONE_BITS },
                Scalar { bits: MINUS_ONE_BITS },
            ),
            horizontal: Vec3::from(
                Scalar { bits: VIEWPORT_WIDTH_BITS },
                Scalar { bits: 0 },
                Scalar { bits: 0 },
            ),
            vertical: Vec3::from(
                Scalar { bits: 0 },
                Scalar { bits: VIEWPORT_HEIGHT_BITS },
                Scalar { bits: 0 },
            ),
        }
    }
}

} // verus!
