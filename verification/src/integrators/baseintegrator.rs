//! The tile scheduler: how an image is cut into tiles, and how the tiles of a
//! render come together.

use vstd::prelude::*;
use crate::common::TILE_SIZE;
use crate::framebuffer::{background, blank, ImageBuffer, Tile};
use crate::integrators::directlighting::{is_colour_of, DirectLightingIntegrator};
use crate::utilities::mathutils::Spectrum;

verus! {

pub struct BaseIntegrator;

/// The ways of computing a pixel.
#[derive(Debug, Clone, Copy, PartialEq, Eq, Structural)]
pub enum Integrators {
    DirectLighting,
    PathTracerBsdf,
    PathTracerNee,
}

/// Packs three 8-bit channels into one number, red in the highest place.
pub fn from_u8_rgb(r: u8, g: u8, b: u8) -> (packed: u32)
    ensures
        packed == r * 65536 + g * 256 + b,
{
    let (r, g, b) = (r as u32, g as u32, b as u32);
    assert((r << 16) | (g << 8) | b == r * 65536 + g * 256 + b) by (bit_vector)
        requires
            r < 256,
            g < 256,
            b < 256,
    ;
    (r << 16) | (g << 8) | b
}

/// The number of whole tiles in an image of `total` pixels.
pub open spec fn tile_count(total: int) -> int {
    total / (TILE_SIZE as int)
}

/// What a render leaves at pixel `index`: inside the whole tiles the colour of
/// the chosen integrator (blank for one that computes nothing), and the
/// background after the last whole tile.
pub open spec fn is_rendered<P: Fn(i32, i32) -> Spectrum>(
    integrator: Integrators,
    radiance: P,
    index: int,
    width: int,
    total: int,
    colour: Spectrum,
) -> bool {
    if index < tile_count(total) * TILE_SIZE {
        match integrator {
            Integrators::DirectLighting => is_colour_of(radiance, index, width, colour),
            _ => colour == blank(),
        }
    } else {
        colour == background()
    }
}

impl BaseIntegrator {
    /// Cuts an image of `width` by `height` pixels into tiles of `TILE_SIZE`
    /// pixels each, in the order of their pixels. Pixels after the last whole
    /// tile belong to no tile.
    ///
    /// The tiles share no pixel and leave no gap: a pixel before the end of the
    /// last tile lies in the tile with the number `index / TILE_SIZE` and in no
    /// other; and where `TILE_SIZE` divides the number of pixels, that is every
    /// pixel of the image.
    pub fn schedule(width: i32, height: i32) -> (tiles: Vec<Tile>)
        requires
            0 <= width,
            0 <= height,
            width * height <= i32::MAX,
        ensures
            tiles@.len() == tile_count(width * height),
            forall|k: int| 0 <= k < tiles@.len() ==> (#[trigger] tiles@[k]).is_fresh(k),
            forall|k: int| 0 <= k < tiles@.len() ==> (#[trigger] tiles@[k]).fits(width * height),
            forall|index: int, k: int|
                0 <= index < tiles@.len() * TILE_SIZE && 0 <= k < tiles@.len() ==> (#[trigger] tiles@[k].covers(index)
                    <==> k == index / (TILE_SIZE as int)),
            (width * height) % (TILE_SIZE as int) == 0 ==> tiles@.len() * TILE_SIZE == width * height,
    {
        assert(0 <= width * height) by (nonlinear_arith)
            requires
                0 <= width,
                0 <= height,
        ;
        let total: usize = (width * height) as usize;
        let count: usize = total / TILE_SIZE;
        let mut tiles: Vec<Tile> = Vec::new();
        let mut k: usize = 0;
        while k < count
            invariant
                0 <= k <= count,
                count == total / TILE_SIZE,
                total <= i32::MAX,
                tiles@.len() == k,
                forall|j: int| 0 <= j < k ==> (#[trigger] tiles@[j]).is_fresh(j),
            decreases count - k,
        {
            let start_index: i32 = (k * TILE_SIZE) as i32;
            let tile: Tile = Tile::new(start_index, TILE_SIZE);
            tiles.push(tile);
            k = k + 1;
        }
        tiles
    }

    /// Renders an image of `width` by `height` pixels tile by tile, one tile
    /// after another: each tile is created, filled by the chosen integrator and
    /// merged into the image.
    pub fn render<P: Fn(i32, i32) -> Spectrum>(integrator: Integrators, width: i32, height: i32, radiance: &P) -> (image:
        ImageBuffer)
        requires
            0 <= width,
            0 <= height,
            width * height <= i32::MAX,
            forall|x: i32, y: i32| call_requires(*radiance, (x, y)),
        ensures
            image@.len() == width * height,
            forall|i: int|
                0 <= i < width * height ==> is_rendered(
                    integrator,
                    *radiance,
                    i,
                    width as int,
                    width * height,
                    #[trigger] image@[i],
                ),
    {
        assert(0 <= width * height && (width == 0 ==> width * height == 0)) by (nonlinear_arith)
            requires
                0 <= width,
                0 <= height,
        ;
        let total: usize = (width * height) as usize;
        let count: usize = total / TILE_SIZE;
        let mut image: ImageBuffer = ImageBuffer::new(total);
        let mut t: usize = 0;
        while t < count
            invariant
                0 <= t <= count,
                count == total / TILE_SIZE,
                total == width * height,
                total <= i32::MAX,
                0 < total ==> 0 < width,
                image@.len() == total,
                forall|x: i32, y: i32| call_requires(*radiance, (x, y)),
                forall|i: int|
                    0 <= i < t * TILE_SIZE ==> is_rendered(
                        integrator,
                        *radiance,
                        i,
                        width as int,
                        total as int,
                        #[trigger] image@[i],
                    ),
                forall|i: int| t * TILE_SIZE <= i < total ==> #[trigger] image@[i] == background(),
            decreases count - t,
        {
            let start_index: i32 = (t * TILE_SIZE) as i32;
            let mut tile: Tile = Tile::new(start_index, TILE_SIZE);
            match integrator {
                Integrators::DirectLighting => {
                    DirectLightingIntegrator::integrate(&mut tile, width, radiance);
                },
                Integrators::PathTracerBsdf => {},
                Integrators::PathTracerNee => {},
            }
            let ghost before = image@;
            let ghost filled = tile;
            image.write_tile(tile);
            proof {
                assert forall|i: int| 0 <= i < (t + 1) * TILE_SIZE implies is_rendered(
                    integrator,
                    *radiance,
                    i,
                    width as int,
                    total as int,
                    #[trigger] image@[i],
                ) by {
                    if i >= t * TILE_SIZE {
                        assert(image@[i] == filled.pixels@[i - t * TILE_SIZE]);
                    } else {
                        assert(image@[i] == before[i]);
                    }
                }
            }
            t = t + 1;
        }
        image
    }
}

/// However the tiles were filled and merged, the image is the one that a
/// render in one go gives: where `TILE_SIZE` divides the number of pixels and
/// `radiance` has one colour for one pixel, an image whose pixels are those of
/// a render by tiles with direct lighting equals an image whose pixels are
/// those of a render of all pixels in turn.
pub proof fn lemma_tiled_render_equals_whole_render<P: Fn(i32, i32) -> Spectrum>(
    radiance: P,
    width: int,
    total: int,
    tiled: Seq<Spectrum>,
    whole: Seq<Spectrum>,
)
    requires
        0 <= total,
        total % (TILE_SIZE as int) == 0,
        tiled.len() == total,
        whole.len() == total,
        forall|i: int|
            0 <= i < total ==> is_rendered(Integrators::DirectLighting, radiance, i, width, total, #[trigger] tiled[i]),
        forall|i: int| 0 <= i < total ==> is_colour_of(radiance, i, width, #[trigger] whole[i]),
        forall|x: i32, y: i32, a: Spectrum, b: Spectrum|
            #[trigger] call_ensures(radiance, (x, y), a) && #[trigger] call_ensures(radiance, (x, y), b) ==> a == b,
    ensures
        tiled == whole,
{
    assert forall|i: int| 0 <= i < total implies tiled[i] == whole[i] by {
        assert(is_rendered(Integrators::DirectLighting, radiance, i, width, total, tiled[i]));
        assert(is_colour_of(radiance, i, width, whole[i]));
    }
    assert(tiled =~= whole);
}

} // verus!
