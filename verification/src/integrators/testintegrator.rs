//! The whole image, pixel after pixel, without tiles.

use vstd::prelude::*;
use crate::common::IntersectionInfo;
use crate::framebuffer::ImageBuffer;
use crate::integrators::directlighting::{is_colour_of, pixel_coordinates};
use crate::utilities::mathutils::{Spectrum, Vector3, ZERO};

verus! {

pub struct TestIntegrator;

impl TestIntegrator {
    /// What one sample adds to a pixel: the normal of the surface that the ray
    /// hit, and nothing where it hit nothing.
    pub fn shade(intersection: Option<IntersectionInfo>) -> (r: Spectrum)
        ensures
            r == (match intersection {
                Some(intersection_info) => intersection_info.normal,
                None => Vector3 { x: ZERO, y: ZERO, z: ZERO },
            }),
    {
        match intersection {
            Some(intersection_info) => intersection_info.normal,
            None => Vector3::new(ZERO, ZERO, ZERO),
        }
    }

    /// Renders an image of `width` by `height` pixels in one go: every pixel
    /// gets what `radiance` returns for its column and row.
    pub fn render<P: Fn(i32, i32) -> Spectrum>(width: i32, height: i32, radiance: &P) -> (image: ImageBuffer)
        requires
            0 <= width,
            0 <= height,
            width * height <= i32::MAX,
            forall|x: i32, y: i32| call_requires(*radiance, (x, y)),
        ensures
            image@.len() == width * height,
            forall|i: int| 0 <= i < width * height ==> is_colour_of(*radiance, i, width as int, #[trigger] image@[i]),
    {
        assert(0 <= width * height && (width == 0 ==> width * height == 0)) by (nonlinear_arith)
            requires
                0 <= width,
                0 <= height,
        ;
        let total: i32 = width * height;
        let mut image: ImageBuffer = ImageBuffer::new(total as usize);
        let mut i: i32 = 0;
        while i < total
            invariant
                0 <= i <= total,
                total == width * height,
                0 < total ==> 0 < width,
                image@.len() == total,
                forall|x: i32, y: i32| call_requires(*radiance, (x, y)),
                forall|j: int| 0 <= j < i ==> is_colour_of(*radiance, j, width as int, #[trigger] image@[j]),
            decreases total - i,
        {
            let position_in_film: i32 = i;
            let (x, y) = pixel_coordinates(position_in_film, width);
            let pixel_value: Spectrum = radiance(x, y);
            image.set_pixel(position_in_film as usize, pixel_value);
            i = i + 1;
        }
        image
    }
}

} // verus!
