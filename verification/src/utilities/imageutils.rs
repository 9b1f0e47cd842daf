//! The bytes of an image file in the portable float map format.

use vstd::prelude::*;
use byteorder::{ByteOrder, LittleEndian};

verus! {

/// One pixel as it is stored: three channels, each the bit pattern of an
/// IEEE-754 binary32 number.
#[derive(Debug, Default, Clone, Copy, PartialEq, Eq)]
pub struct PfmPixel {
    pub r: u32,
    pub g: u32,
    pub b: u32,
}

/// The four bytes of a number, the lowest first.
pub open spec fn little_endian(n: u32) -> Seq<u8> {
    seq![(n % 256) as u8, (n / 256 % 256) as u8, (n / 65536 % 256) as u8, (n / 16777216) as u8]
}

/// The decimal digits of a number, as ASCII.
pub open spec fn decimal(n: nat) -> Seq<u8>
    decreases n,
{
    if n < 10 {
        seq![(48 + n) as u8]
    } else {
        decimal(n / 10).push((48 + n % 10) as u8)
    }
}

/// The header of a colour image: the line `PF`, the line of width and height,
/// and the line `-1`, which says that the channels are stored lowest byte
/// first.
pub open spec fn pfm_header(width: nat, height: nat) -> Seq<u8> {
    seq![80u8, 70u8, 10u8] + decimal(width) + seq![32u8] + decimal(height) + seq![10u8] + seq![45u8, 49u8, 10u8]
}

/// The twelve bytes of one pixel: red, green, blue.
pub open spec fn pfm_pixel_bytes(pixel: PfmPixel) -> Seq<u8> {
    little_endian(pixel.r) + little_endian(pixel.g) + little_endian(pixel.b)
}

/// The bytes of the pixels, one pixel after another.
pub open spec fn pfm_body(pixels: Seq<PfmPixel>) -> Seq<u8>
    decreases pixels.len(),
{
    if pixels.len() == 0 {
        Seq::empty()
    } else {
        pfm_body(pixels.drop_last()) + pfm_pixel_bytes(pixels.last())
    }
}

/// The four bytes that byteorder's `LittleEndian::write_u32` writes for `n`:
/// its bytes from the lowest to the highest. (The crate's `write_f32` writes
/// the same four bytes for the number whose bit pattern is `n`.)
#[verifier::external_body]
fn write_u32_le(n: u32) -> (buf: [u8; 4])
    ensures
        buf@ == little_endian(n),
{
    let mut buf: [u8; 4] = [0; 4];
    LittleEndian::write_u32(&mut buf, n);
    buf
}

fn push_u32(buffer: &mut Vec<u8>, n: u32)
    ensures
        final(buffer)@ == old(buffer)@ + little_endian(n),
{
    let buf: [u8; 4] = write_u32_le(n);
    buffer.push(buf[0]);
    buffer.push(buf[1]);
    buffer.push(buf[2]);
    buffer.push(buf[3]);
    assert(buffer@ =~= old(buffer)@ + little_endian(n));
}

fn push_decimal(buffer: &mut Vec<u8>, n: u32)
    ensures
        final(buffer)@ == old(buffer)@ + decimal(n as nat),
    decreases n,
{
    if n < 10 {
        buffer.push(48 + n as u8);
        assert(buffer@ =~= old(buffer)@ + decimal(n as nat));
    } else {
        push_decimal(buffer, n / 10);
        buffer.push(48 + (n % 10) as u8);
        assert(buffer@ =~= old(buffer)@ + decimal(n as nat));
    }
}

/// The bytes of the image file for `pixels`, an image of `width` by `height`
/// pixels stored row after row.
pub fn write_pfm(pixels: &Vec<PfmPixel>, width: i32, height: i32) -> (bytes: Vec<u8>)
    requires
        0 <= width,
        0 <= height,
        pixels@.len() == width * height,
    ensures
        bytes@ == pfm_header(width as nat, height as nat) + pfm_body(pixels@),
{
    let mut buffer: Vec<u8> = Vec::new();
    buffer.push(80);
    buffer.push(70);
    buffer.push(10);
    push_decimal(&mut buffer, width as u32);
    buffer.push(32);
    push_decimal(&mut buffer, height as u32);
    buffer.push(10);
    buffer.push(45);
    buffer.push(49);
    buffer.push(10);
    assert(buffer@ =~= pfm_header(width as nat, height as nat));
    let mut k: usize = 0;
    while k < pixels.len()
        invariant
            0 <= k <= pixels.len(),
            buffer@ == pfm_header(width as nat, height as nat) + pfm_body(pixels@.take(k as int)),
        decreases pixels.len() - k,
    {
        let pixelvalue: PfmPixel = pixels[k];
        let ghost before = buffer@;
        push_u32(&mut buffer, pixelvalue.r);
        push_u32(&mut buffer, pixelvalue.g);
        push_u32(&mut buffer, pixelvalue.b);
        proof {
            let next = pixels@.take(k + 1);
            assert(next.drop_last() =~= pixels@.take(k as int));
            assert(next.last() == pixelvalue);
            assert(buffer@ =~= before + pfm_pixel_bytes(pixelvalue));
            assert(buffer@ =~= pfm_header(width as nat, height as nat) + pfm_body(next));
        }
        k = k + 1;
    }
    assert(pixels@.take(k as int) =~= pixels@);
    buffer
}

} // verus!
