//! Decoding of X11 `ZPixmap` pixel values into colour channels.

use vstd::prelude::*;

verus! {

/// One decoded pixel: four 8-bit channels.
#[derive(Clone, Copy, Debug, PartialEq, Eq, Structural)]
pub struct Rgba {
    pub r: u8,
    pub g: u8,
    pub b: u8,
    pub a: u8,
}

/// A 32-bit `BGRA` word as X hands it out: blue in the lowest byte, then
/// green, red and alpha.
pub open spec fn spec_decode_pixel(pixel: u64) -> Rgba {
    Rgba {
        b: (pixel % 256) as u8,
        g: ((pixel / 0x100) % 256) as u8,
        r: ((pixel / 0x1_0000) % 256) as u8,
        a: ((pixel / 0x100_0000) % 256) as u8,
    }
}

/// Splits a pixel value into its channels, blue in the lowest byte.
pub fn decode_pixel(pixel: u64) -> (c: Rgba)
    ensures
        c == spec_decode_pixel(pixel),
        c.b == pixel as u8,
        c.g == (pixel >> 8u64) as u8,
        c.r == (pixel >> 16u64) as u8,
        c.a == (pixel >> 24u64) as u8,
{
    let b = (pixel & 0xff) as u8;
    let g = ((pixel >> 8) & 0xff) as u8;
    let r = ((pixel >> 16) & 0xff) as u8;
    let a = ((pixel >> 24) & 0xff) as u8;
    assert((pixel & 0xff) == pixel % 256) by (bit_vector);
    assert(((pixel >> 8) & 0xff) == (pixel / 0x100) % 256) by (bit_vector);
    assert(((pixel >> 16) & 0xff) == (pixel / 0x1_0000) % 256) by (bit_vector);
    assert(((pixel >> 24) & 0xff) == (pixel / 0x100_0000) % 256) by (bit_vector);
    proof {
        lemma_decode_channels_are_shifted_bytes(pixel);
    }
    Rgba { r, g, b, a }
}

/// Each decoded channel is the pixel shifted right by 0, 8, 16 or 24 bits
/// and cut to its low byte: blue, green, red, alpha from the lowest byte up.
pub proof fn lemma_decode_channels_are_shifted_bytes(p: u64)
    ensures
        spec_decode_pixel(p).b == p as u8,
        spec_decode_pixel(p).g == (p >> 8u64) as u8,
        spec_decode_pixel(p).r == (p >> 16u64) as u8,
        spec_decode_pixel(p).a == (p >> 24u64) as u8,
{
    assert(p as u8 == p % 256) by (bit_vector);
    assert((p >> 8u64) as u8 == (p / 0x100) % 256) by (bit_vector);
    assert((p >> 16u64) as u8 == (p / 0x1_0000) % 256) by (bit_vector);
    assert((p >> 24u64) as u8 == (p / 0x100_0000) % 256) by (bit_vector);
}

/// The channels handed to the pixbuf when a window is copied: each argument
/// is the pixel shifted left by 0, 8, 16 and 24 bits and cut to its low byte,
/// so only the first one keeps any bits of the pixel.
pub open spec fn spec_pixbuf_channels(pixel: u64) -> Rgba {
    Rgba { r: (pixel % 256) as u8, g: 0, b: 0, a: 0 }
}

/// Computes the four channel arguments of a pixbuf write from a pixel value,
/// taking the low byte of the pixel shifted left by 0, 8, 16 and 24 bits.
pub fn pixbuf_channels(pixel: u64) -> (c: Rgba)
    ensures
        c == spec_pixbuf_channels(pixel),
        c.r == pixel as u8,
        c.g == (pixel << 8u64) as u8,
        c.b == (pixel << 16u64) as u8,
        c.a == (pixel << 24u64) as u8,
        c.r == pixel % 256,
        c.g == 0,
        c.b == 0,
        c.a == 0,
{
    let r = (pixel & 0xff) as u8;
    let g = ((pixel << 8u64) & 0xff) as u8;
    let b = ((pixel << 16u64) & 0xff) as u8;
    let a = ((pixel << 24u64) & 0xff) as u8;
    assert((pixel & 0xff) == pixel % 256) by (bit_vector);
    assert(((pixel << 8u64) & 0xff) == 0) by (bit_vector);
    assert(((pixel << 16u64) & 0xff) == 0) by (bit_vector);
    assert(((pixel << 24u64) & 0xff) == 0) by (bit_vector);
    proof {
        lemma_pixbuf_channels_are_shifted_low_bytes(pixel);
    }
    Rgba { r, g, b, a }
}

/// Each pixbuf channel is the pixel shifted left by 0, 8, 16 or 24 bits and
/// cut to its low byte; so red is the pixel's lowest byte and green, blue
/// and alpha are 0 for every pixel.
pub proof fn lemma_pixbuf_channels_are_shifted_low_bytes(p: u64)
    ensures
        spec_pixbuf_channels(p).r == p as u8,
        spec_pixbuf_channels(p).g == (p << 8u64) as u8,
        spec_pixbuf_channels(p).b == (p << 16u64) as u8,
        spec_pixbuf_channels(p).a == (p << 24u64) as u8,
        spec_pixbuf_channels(p).r == p % 256,
        spec_pixbuf_channels(p).g == 0,
        spec_pixbuf_channels(p).b == 0,
        spec_pixbuf_channels(p).a == 0,
{
    assert(p as u8 == p % 256) by (bit_vector);
    assert((p << 8u64) as u8 == 0) by (bit_vector);
    assert((p << 16u64) as u8 == 0) by (bit_vector);
    assert((p << 24u64) as u8 == 0) by (bit_vector);
}

/// Decodes every pixel of a captured frame, keeping their order.
pub fn decode_frame(pixels: &Vec<u64>) -> (out: Vec<Rgba>)
    ensures
        out@.len() == pixels@.len(),
        forall|i: int| 0 <= i < pixels@.len() ==> #[trigger] out@[i] == spec_decode_pixel(pixels@[i]),
        forall|i: int|
            0 <= i < pixels@.len() ==> (#[trigger] out@[i]).b == pixels@[i] as u8 && out@[i].g == (
            pixels@[i] >> 8u64) as u8 && out@[i].r == (pixels@[i] >> 16u64) as u8 && out@[i].a == (
            pixels@[i] >> 24u64) as u8,
{
    let mut out: Vec<Rgba> = Vec::with_capacity(pixels.len());
    let mut i: usize = 0;
    while i < pixels.len()
        invariant
            i <= pixels@.len(),
            out@.len() == i,
            forall|j: int| 0 <= j < i ==> #[trigger] out@[j] == spec_decode_pixel(pixels@[j]),
        decreases pixels@.len() - i,
    {
        out.push(decode_pixel(pixels[i]));
        i = i + 1;
    }
    assert forall|i: int| 0 <= i < pixels@.len() implies (#[trigger] out@[i]).b == pixels@[i] as u8
        && out@[i].g == (pixels@[i] >> 8u64) as u8 && out@[i].r == (pixels@[i] >> 16u64) as u8
        && out@[i].a == (pixels@[i] >> 24u64) as u8 by {
        lemma_decode_channels_are_shifted_bytes(pixels@[i]);
    }
    out
}

/// Turns every pixel of a captured window into pixbuf channels, keeping their
/// order.
pub fn pixbuf_frame(pixels: &Vec<u64>) -> (out: Vec<Rgba>)
    ensures
        out@.len() == pixels@.len(),
        forall|i: int| 0 <= i < pixels@.len() ==> #[trigger] out@[i] == spec_pixbuf_channels(pixels@[i]),
        forall|i: int|
            0 <= i < pixels@.len() ==> (#[trigger] out@[i]).r == pixels@[i] % 256 && out@[i].g == 0
                && out@[i].b == 0 && out@[i].a == 0,
{
    let mut out: Vec<Rgba> = Vec::with_capacity(pixels.len());
    let mut i: usize = 0;
    while i < pixels.len()
        invariant
            i <= pixels@.len(),
            out@.len() == i,
            forall|j: int| 0 <= j < i ==> #[trigger] out@[j] == spec_pixbuf_channels(pixels@[j]),
        decreases pixels@.len() - i,
    {
        out.push(pixbuf_channels(pixels[i]));
        i = i + 1;
    }
    assert forall|i: int| 0 <= i < pixels@.len() implies (#[trigger] out@[i]).r == pixels@[i] % 256
        && out@[i].g == 0 && out@[i].b == 0 && out@[i].a == 0 by {
        lemma_pixbuf_channels_are_shifted_low_bytes(pixels@[i]);
    }
    out
}

/// The four decoded channels put back in their places give the low 32 bits
/// of the pixel: decoding loses nothing below bit 32, and two pixels with
/// the same low 32 bits decode alike.
pub proof fn lemma_decode_recomposes(pixel: u64)
    ensures
        ({
            let c = spec_decode_pixel(pixel);
            c.a as int * 0x100_0000 + c.r as int * 0x1_0000 + c.g as int * 0x100 + c.b as int
                == pixel as int % 0x1_0000_0000
        }),
{
    let c = spec_decode_pixel(pixel);
    assert(c.b == pixel % 256);
    assert(c.g == (pixel / 0x100) % 256);
    assert(c.r == (pixel / 0x1_0000) % 256);
    assert(c.a == (pixel / 0x100_0000) % 256);
    assert(((pixel / 0x100_0000) % 256) * 0x100_0000 + ((pixel / 0x1_0000) % 256) * 0x1_0000
        + ((pixel / 0x100) % 256) * 0x100 + pixel % 256 == pixel % 0x1_0000_0000) by (bit_vector);
}

/// Decoding is a function of the low 32 bits alone, and of nothing else:
/// two pixels decode to the same channels exactly when their low 32 bits agree.
pub proof fn lemma_decode_injective_on_low_word(p: u64, q: u64)
    ensures
        (spec_decode_pixel(p) == spec_decode_pixel(q)) <==> (p % 0x1_0000_0000 == q % 0x1_0000_0000),
{
    lemma_decode_recomposes(p);
    lemma_decode_recomposes(q);
    if p % 0x1_0000_0000 == q % 0x1_0000_0000 {
        assert((p % 0x1_0000_0000 == q % 0x1_0000_0000) ==> (
            p % 256 == q % 256 && (p / 0x100) % 256 == (q / 0x100) % 256
            && (p / 0x1_0000) % 256 == (q / 0x1_0000) % 256
            && (p / 0x100_0000) % 256 == (q / 0x100_0000) % 256)) by (bit_vector);
    }
}

} // verus!
