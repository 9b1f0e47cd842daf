//! Tiles of pixels and the image they are merged into.

use vstd::prelude::*;
use crate::common::TILE_SIZE;
use crate::utilities::mathutils::{Spectrum, Vector3, ONE_HALF, ZERO};

verus! {

/// A run of consecutive pixels of the image, with the buffer that one worker
/// fills for it.
#[derive(Debug, Clone, Default)]
pub struct Tile {
    /// Index of the tile's first pixel in the image.
    pub start_index: i32,
    pub num_pixels: usize,
    pub pixels: Vec<Spectrum>,
}

/// The image, one colour per pixel, row after row.
#[derive(Debug, Default)]
pub struct ImageBuffer {
    image: Vec<Spectrum>,
}

/// The colour of a pixel that nothing was written to: one half in each channel.
pub open spec fn background() -> Vector3 {
    Vector3 { x: ONE_HALF, y: ONE_HALF, z: ONE_HALF }
}

/// The colour that a fresh tile holds: zero in each channel.
pub open spec fn blank() -> Vector3 {
    Vector3 { x: ZERO, y: ZERO, z: ZERO }
}

/// `image` with the pixels from `start` on replaced by the first `count`
/// pixels of `pixels`.
pub open spec fn overwritten(image: Seq<Vector3>, start: int, count: int, pixels: Seq<Vector3>) -> Seq<Vector3> {
    Seq::new(
        image.len(),
        |i: int|
            if start <= i < start + count {
                pixels[i - start]
            } else {
                image[i]
            },
    )
}

impl Tile {
    /// The tile's pixels are the indices from `start_index` up to, not
    /// including, `start_index + num_pixels`.
    pub open spec fn covers(self, index: int) -> bool {
        self.start_index <= index < self.start_index + self.num_pixels
    }

    /// The tile lies inside an image of `total` pixels and owns a buffer for
    /// each of its pixels.
    pub open spec fn fits(self, total: int) -> bool {
        &&& 0 <= self.start_index
        &&& self.start_index + self.num_pixels <= total
        &&& self.num_pixels <= self.pixels@.len()
    }

    /// Tile number `number` of an image: `TILE_SIZE` blank pixels.
    pub open spec fn is_fresh(self, number: int) -> bool {
        &&& self.start_index == number * TILE_SIZE
        &&& self.num_pixels == TILE_SIZE
        &&& self.pixels@ == Seq::new(TILE_SIZE as nat, |j: int| blank())
    }

    /// Whether the tile lies inside an image of `total` pixels and owns a
    /// buffer for each of its pixels, so that it can be merged into the image.
    pub fn fits_image(&self, total: usize) -> (r: bool)
        ensures
            r == self.fits(total as int),
    {
        self.start_index >= 0 && self.num_pixels <= total && self.start_index as usize <= total - self.num_pixels
            && self.num_pixels <= self.pixels.len()
    }

    /// A tile of `num_pixels` blank pixels that starts at `start_index`.
    pub fn new(start_index: i32, num_pixels: usize) -> (tile: Tile)
        ensures
            tile.start_index == start_index,
            tile.num_pixels == num_pixels,
            tile.pixels@ == Seq::new(num_pixels as nat, |j: int| blank()),
    {
        let mut pixels: Vec<Spectrum> = Vec::new();
        let mut j: usize = 0;
        while j < num_pixels
            invariant
                0 <= j <= num_pixels,
                pixels@ == Seq::new(j as nat, |k: int| blank()),
            decreases num_pixels - j,
        {
            pixels.push(Vector3::from(ZERO));
            assert(pixels@ =~= Seq::new((j + 1) as nat, |k: int| blank()));
            j = j + 1;
        }
        Tile { start_index, num_pixels, pixels }
    }
}

impl View for ImageBuffer {
    type V = Seq<Vector3>;

    closed spec fn view(&self) -> Seq<Vector3> {
        self.image@
    }
}

impl ImageBuffer {
    /// An image of `size` pixels in the background colour.
    pub fn new(size: usize) -> (buffer: ImageBuffer)
        ensures
            buffer@ == Seq::new(size as nat, |i: int| background()),
    {
        let mut image: Vec<Spectrum> = Vec::new();
        let mut i: usize = 0;
        while i < size
            invariant
                0 <= i <= size,
                image@ == Seq::new(i as nat, |k: int| background()),
            decreases size - i,
        {
            image.push(Vector3::from(ONE_HALF));
            assert(image@ =~= Seq::new((i + 1) as nat, |k: int| background()));
            i = i + 1;
        }
        ImageBuffer { image }
    }

    /// Copies the tile's pixels to their place in the image; every other pixel
    /// stays as it is.
    pub fn write_tile(&mut self, tile: Tile)
        requires
            tile.fits(old(self)@.len() as int),
        ensures
            final(self)@ == overwritten(old(self)@, tile.start_index as int, tile.num_pixels as int, tile.pixels@),
    {
        let starting_index: usize = tile.start_index as usize;
        let num_pixels_to_write: usize = tile.num_pixels;
        let mut k: usize = 0;
        while k < num_pixels_to_write
            invariant
                0 <= k <= num_pixels_to_write,
                num_pixels_to_write <= tile.pixels@.len(),
                starting_index + num_pixels_to_write <= self.image.len(),
                self.image.len() == old(self).image.len(),
                self.image@ == overwritten(old(self).image@, starting_index as int, k as int, tile.pixels@),
            decreases num_pixels_to_write - k,
        {
            self.image[starting_index + k] = tile.pixels[k];
            assert(self.image@ =~= overwritten(old(self).image@, starting_index as int, k + 1, tile.pixels@));
            k = k + 1;
        }
    }

    /// Gives the pixel at `index` a colour; every other pixel stays as it is.
    pub fn set_pixel(&mut self, index: usize, colour: Spectrum)
        requires
            index < old(self)@.len(),
        ensures
            final(self)@ == old(self)@.update(index as int, colour),
    {
        self.image[index] = colour;
    }

    /// The number of pixels.
    pub fn len(&self) -> (n: usize)
        ensures
            n == self@.len(),
    {
        self.image.len()
    }

    /// The colour of the pixel at `index`.
    pub fn pixel(&self, index: usize) -> (colour: Spectrum)
        requires
            index < self@.len(),
        ensures
            colour == self@[index as int],
    {
        self.image[index]
    }
}

/// Tiles that share no pixel may be merged in either order: the image is the
/// same.
pub proof fn lemma_write_tile_commutes(image: Seq<Vector3>, first: Tile, second: Tile)
    requires
        first.fits(image.len() as int),
        second.fits(image.len() as int),
        first.start_index + first.num_pixels <= second.start_index || second.start_index + second.num_pixels
            <= first.start_index,
    ensures
        overwritten(
            overwritten(image, first.start_index as int, first.num_pixels as int, first.pixels@),
            second.start_index as int,
            second.num_pixels as int,
            second.pixels@,
        ) == overwritten(
            overwritten(image, second.start_index as int, second.num_pixels as int, second.pixels@),
            first.start_index as int,
            first.num_pixels as int,
            first.pixels@,
        ),
{
    let one = overwritten(
        overwritten(image, first.start_index as int, first.num_pixels as int, first.pixels@),
        second.start_index as int,
        second.num_pixels as int,
        second.pixels@,
    );
    let other = overwritten(
        overwritten(image, second.start_index as int, second.num_pixels as int, second.pixels@),
        first.start_index as int,
        first.num_pixels as int,
        first.pixels@,
    );
    assert(one =~= other);
}

/// A merge changes no pixel outside the tile, and gives each pixel of the tile
/// the colour that the tile holds for it.
pub proof fn lemma_write_tile_is_local(image: Seq<Vector3>, tile: Tile, index: int)
    requires
        tile.fits(image.len() as int),
        0 <= index < image.len(),
    ensures
        overwritten(image, tile.start_index as int, tile.num_pixels as int, tile.pixels@)[index] == (if tile.covers(
            index,
        ) {
            tile.pixels@[index - tile.start_index]
        } else {
            image[index]
        }),
{
}

/// The image after the tiles of a list were merged into it, one after another.
pub open spec fn merged_into(image: Seq<Vector3>, tiles: Seq<Tile>) -> Seq<Vector3>
    decreases tiles.len(),
{
    if tiles.len() == 0 {
        image
    } else {
        let last = tiles.last();
        overwritten(
            merged_into(image, tiles.drop_last()),
            last.start_index as int,
            last.num_pixels as int,
            last.pixels@,
        )
    }
}

/// No two tiles of the list share a pixel.
pub open spec fn are_disjoint(tiles: Seq<Tile>) -> bool {
    forall|j: int, k: int, index: int|
        0 <= j < tiles.len() && 0 <= k < tiles.len() && j != k && #[trigger] tiles[j].covers(index) ==> !#[trigger] tiles[k].covers(
            index,
        )
}

/// What the merged image holds does not depend on the order in which tiles
/// that share no pixel arrive: a pixel that a tile covers has the colour that
/// this tile holds for it, and a pixel that no tile covers is unchanged.
pub proof fn lemma_merged_image_is_order_free(image: Seq<Vector3>, tiles: Seq<Tile>)
    requires
        forall|k: int| 0 <= k < tiles.len() ==> (#[trigger] tiles[k]).fits(image.len() as int),
        are_disjoint(tiles),
    ensures
        merged_into(image, tiles).len() == image.len(),
        forall|k: int, index: int|
            0 <= k < tiles.len() && #[trigger] tiles[k].covers(index) ==> merged_into(image, tiles)[index]
                == tiles[k].pixels@[index - tiles[k].start_index],
        forall|index: int|
            0 <= index < image.len() && (forall|k: int| 0 <= k < tiles.len() ==> !#[trigger] tiles[k].covers(index))
                ==> #[trigger] merged_into(image, tiles)[index] == image[index],
    decreases tiles.len(),
{
    if tiles.len() > 0 {
        let front = tiles.drop_last();
        let last = tiles.last();
        let n = tiles.len() - 1;
        assert(last == tiles[n]);
        assert forall|k: int| 0 <= k < front.len() implies (#[trigger] front[k]).fits(image.len() as int) by {
            assert(front[k] == tiles[k]);
        }
        assert forall|j: int, k: int, index: int|
            0 <= j < front.len() && 0 <= k < front.len() && j != k && #[trigger] front[j].covers(
                index,
            ) implies !#[trigger] front[k].covers(index) by {
            assert(front[j] == tiles[j] && front[k] == tiles[k]);
            assert(tiles[j].covers(index));
        }
        lemma_merged_image_is_order_free(image, front);
        let before = merged_into(image, front);
        let after = merged_into(image, tiles);
        assert forall|k: int, index: int| 0 <= k < tiles.len() && #[trigger] tiles[k].covers(index) implies after[index]
            == tiles[k].pixels@[index - tiles[k].start_index] by {
            if k < n {
                assert(front[k] == tiles[k]);
                assert(front[k].covers(index));
                assert(!tiles[n].covers(index));
            }
        }
        assert forall|index: int|
            0 <= index < image.len() && (forall|k: int|
                0 <= k < tiles.len() ==> !#[trigger] tiles[k].covers(index)) implies #[trigger] after[index]
            == image[index] by {
            assert(!tiles[n].covers(index));
            assert forall|k: int| 0 <= k < front.len() implies !#[trigger] front[k].covers(index) by {
                assert(front[k] == tiles[k]);
                assert(!tiles[k].covers(index));
            }
            assert(before[index] == image[index]);
        }
    }
}

} // verus!
