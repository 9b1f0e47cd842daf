//! The work of one tile: a colour for each of its pixels.

use vstd::prelude::*;
use crate::common::IntersectionInfo;
use crate::framebuffer::Tile;
use crate::utilities::mathutils::{
    fp_abs, magnitude, Spectrum, Vector3, ONE_HALF, POS_INFINITY,
};

verus! {

pub struct DirectLightingIntegrator;

/// Column and row of the pixel with the given index in an image that is
/// `width` pixels wide.
pub open spec fn pixel_position(index: int, width: int) -> (int, int) {
    (index % width, index / width)
}

/// The scalar is a number, and not an infinity.
pub open spec fn is_finite(a: u64) -> bool {
    magnitude(a) < POS_INFINITY
}

/// Column and row of a pixel, from its index.
pub fn pixel_coordinates(position_in_film: i32, width: i32) -> (r: (i32, i32))
    requires
        0 <= position_in_film,
        0 < width,
    ensures
        (r.0 as int, r.1 as int) == pixel_position(position_in_film as int, width as int),
        0 <= r.0 < width,
        0 <= r.1,
        r.1 * width + r.0 == position_in_film,
{
    let x: i32 = position_in_film % width;
    let y: i32 = position_in_film / width;
    proof {
        let p = position_in_film as int;
        let w = width as int;
        assert(p == w * (p / w) + p % w && 0 <= p % w < w && 0 <= p / w) by (nonlinear_arith)
            requires
                0 < w,
                0 <= p,
        ;
        assert((p / w) * w == w * (p / w)) by (nonlinear_arith);
    }
    (x, y)
}

impl DirectLightingIntegrator {
    /// What one sample adds to a pixel: the normal of the surface that the ray
    /// hit, and one half in each channel where it hit nothing.
    pub fn shade(intersection: Option<IntersectionInfo>) -> (r: Spectrum)
        ensures
            r == (match intersection {
                Some(intersection_info) => intersection_info.normal,
                None => Vector3 { x: ONE_HALF, y: ONE_HALF, z: ONE_HALF },
            }),
    {
        match intersection {
            Some(intersection_info) => intersection_info.normal,
            None => Vector3::new(ONE_HALF, ONE_HALF, ONE_HALF),
        }
    }

    /// Whether a pixel has a channel that is infinite or a NaN, and so is to
    /// be reported.
    pub fn is_not_finite(pixel_value: &Spectrum) -> (r: bool)
        ensures
            r == !(is_finite(pixel_value.x) && is_finite(pixel_value.y) && is_finite(pixel_value.z)),
    {
        !(fp_abs(pixel_value.x) < POS_INFINITY) || !(fp_abs(pixel_value.y) < POS_INFINITY) || !(fp_abs(pixel_value.z)
            < POS_INFINITY)
    }

    /// Fills the tile's buffer: each pixel of the tile gets what `radiance`
    /// returns for its column and row. The tile's place in the image does not
    /// change.
    pub fn integrate<P: Fn(i32, i32) -> Spectrum>(curr_tile: &mut Tile, film_width: i32, radiance: &P)
        requires
            0 <= old(curr_tile).start_index,
            0 < film_width,
            old(curr_tile).start_index + old(curr_tile).num_pixels <= i32::MAX,
            forall|x: i32, y: i32| call_requires(*radiance, (x, y)),
        ensures
            final(curr_tile).start_index == old(curr_tile).start_index,
            final(curr_tile).num_pixels == old(curr_tile).num_pixels,
            final(curr_tile).pixels@.len() == old(curr_tile).num_pixels,
            forall|k: int|
                0 <= k < old(curr_tile).num_pixels ==> is_colour_of(
                    *radiance,
                    old(curr_tile).start_index + k,
                    film_width as int,
                    #[trigger] final(curr_tile).pixels@[k],
                ),
    {
        let start: i32 = curr_tile.start_index;
        let count: usize = curr_tile.num_pixels;
        let mut pixels: Vec<Spectrum> = Vec::new();
        let mut k: usize = 0;
        while k < count
            invariant
                0 <= k <= count,
                0 <= start,
                0 < film_width,
                start + count <= i32::MAX,
                pixels@.len() == k,
                forall|x: i32, y: i32| call_requires(*radiance, (x, y)),
                forall|j: int| 0 <= j < k ==> is_colour_of(*radiance, start + j, film_width as int, #[trigger] pixels@[j]),
            decreases count - k,
        {
            let position_in_film: i32 = start + k as i32;
            let (x, y) = pixel_coordinates(position_in_film, film_width);
            let pixel_value: Spectrum = radiance(x, y);
            pixels.push(pixel_value);
            k = k + 1;
        }
        curr_tile.pixels = pixels;
    }
}

/// `colour` is what `radiance` can return for the pixel with the given index.
pub open spec fn is_colour_of<P: Fn(i32, i32) -> Spectrum>(radiance: P, index: int, width: int, colour: Vector3) -> bool {
    call_ensures(radiance, (pixel_position(index, width).0 as i32, pixel_position(index, width).1 as i32), colour)
}

} // verus!
