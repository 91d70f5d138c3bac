//! Colours and packed samples.
//!
//! A sample is one pixel of a surface: four channels of one byte each, packed
//! into a `u32` with alpha in the most significant byte, then red, green and
//! blue. The host's image wants the bytes in the order red, green, blue, alpha;
//! `rgba_of` states that reordering.

use vstd::prelude::*;

verus! {

/// An opaque colour: red, green and blue, one byte each.
#[derive(Clone, Copy, Debug, PartialEq, Eq)]
pub struct Rgb {
    pub r: u8,
    pub g: u8,
    pub b: u8,
}

/// The sample of a fully transparent pixel.
pub const TRANSPARENT: u32 = 0;

/// The sample with the given channels: `a * 2^24 + r * 2^16 + g * 2^8 + b`.
pub open spec fn argb(a: u8, r: u8, g: u8, b: u8) -> u32 {
    (a as int * 0x100_0000 + r as int * 0x1_0000 + g as int * 0x100 + b as int) as u32
}

/// The alpha channel of a sample.
pub open spec fn alpha_of(sample: u32) -> u8 {
    (sample as int / 0x100_0000) as u8
}

/// The red channel of a sample.
pub open spec fn red_of(sample: u32) -> u8 {
    ((sample as int / 0x1_0000) % 0x100) as u8
}

/// The green channel of a sample.
pub open spec fn green_of(sample: u32) -> u8 {
    ((sample as int / 0x100) % 0x100) as u8
}

/// The blue channel of a sample.
pub open spec fn blue_of(sample: u32) -> u8 {
    (sample as int % 0x100) as u8
}

/// The four bytes that the host's image holds for a sample, in its order:
/// red, green, blue, alpha.
pub open spec fn rgba_of(sample: u32) -> Seq<u8> {
    seq![red_of(sample), green_of(sample), blue_of(sample), alpha_of(sample)]
}

/// Packs four channels into a sample.
pub fn pack_argb(a: u8, r: u8, g: u8, b: u8) -> (sample: u32)
    ensures
        sample == argb(a, r, g, b),
{
    let a32: u32 = a as u32;
    let r32: u32 = r as u32;
    let g32: u32 = g as u32;
    let b32: u32 = b as u32;
    assert((a32 << 24) | (r32 << 16) | (g32 << 8) | b32 == a32 * 0x100_0000 + r32 * 0x1_0000 + g32
        * 0x100 + b32) by (bit_vector)
        requires
            a32 < 0x100,
            r32 < 0x100,
            g32 < 0x100,
            b32 < 0x100,
    ;
    (a32 << 24) | (r32 << 16) | (g32 << 8) | b32
}

/// Splits a sample into the four bytes of the host's order.
pub fn unpack_rgba(sample: u32) -> (channels: [u8; 4])
    ensures
        channels@ == rgba_of(sample),
{
    assert((sample >> 24) & 0xFF == sample / 0x100_0000) by (bit_vector);
    assert((sample >> 16) & 0xFF == (sample / 0x1_0000) % 0x100) by (bit_vector);
    assert((sample >> 8) & 0xFF == (sample / 0x100) % 0x100) by (bit_vector);
    assert(sample & 0xFF == sample % 0x100) by (bit_vector);
    let b: u8 = (sample & 0xFF) as u8;
    let g: u8 = ((sample >> 8) & 0xFF) as u8;
    let r: u8 = ((sample >> 16) & 0xFF) as u8;
    let a: u8 = ((sample >> 24) & 0xFF) as u8;
    let channels: [u8; 4] = [r, g, b, a];
    assert(channels@ =~= rgba_of(sample));
    channels
}

/// Unpacking undoes packing: every channel comes back as it went in.
pub proof fn lemma_channels_of_argb(a: u8, r: u8, g: u8, b: u8)
    ensures
        alpha_of(argb(a, r, g, b)) == a,
        red_of(argb(a, r, g, b)) == r,
        green_of(argb(a, r, g, b)) == g,
        blue_of(argb(a, r, g, b)) == b,
        rgba_of(argb(a, r, g, b)) == seq![r, g, b, a],
{
}

} // verus!
