//! Masks: one byte per pixel, derived from the pixels of a rendered sub-scene.

use crate::style::MaskMode;
use vstd::prelude::*;

verus! {

/// The luma of a pixel after Rec. 601: `0.299 R + 0.587 G + 0.114 B`, rounded
/// down.
pub open spec fn luma(r: u8, g: u8, b: u8) -> u8 {
    ((299 * r + 587 * g + 114 * b) / 1000) as u8
}

/// The mask value of one premultiplied pixel.
pub open spec fn mask_value(r: u8, g: u8, b: u8, a: u8, mode: MaskMode) -> u8 {
    let plain = if mode.luminance {
        luma(r, g, b)
    } else {
        a
    };
    if mode.inverted {
        (255 - plain) as u8
    } else {
        plain
    }
}

/// The mask of a buffer of RGBA8 pixels: one value per complete pixel.
pub open spec fn mask_of(pixels: Seq<u8>, mode: MaskMode) -> Seq<u8> {
    Seq::new(
        (pixels.len() / 4) as nat,
        |i: int| mask_value(pixels[4 * i], pixels[4 * i + 1], pixels[4 * i + 2], pixels[4 * i + 3], mode),
    )
}

fn luma_of(r: u8, g: u8, b: u8) -> (l: u8)
    ensures
        l == luma(r, g, b),
{
    let sum: u32 = 299 * (r as u32) + 587 * (g as u32) + 114 * (b as u32);
    (sum / 1000) as u8
}

/// Derives a mask from premultiplied RGBA8 pixels: each pixel's alpha or
/// luma, turned upside down where the mode is inverted.
pub fn derive_mask(pixels: &[u8], mode: MaskMode) -> (mask: Vec<u8>)
    ensures
        mask@ == mask_of(pixels@, mode),
{
    let count: usize = pixels.len() / 4;
    let mut mask: Vec<u8> = Vec::new();
    let mut i: usize = 0;
    while i < count
        invariant
            count == pixels.len() / 4,
            i <= count,
            mask@.len() == i,
            forall|k: int| 0 <= k < i ==> mask@[k] == mask_of(pixels@, mode)[k],
        decreases count - i,
    {
        let at: usize = 4 * i;
        let plain: u8 = if mode.luminance {
            luma_of(pixels[at], pixels[at + 1], pixels[at + 2])
        } else {
            pixels[at + 3]
        };
        let value: u8 = if mode.inverted {
            255 - plain
        } else {
            plain
        };
        mask.push(value);
        i += 1;
    }
    assert(mask@ =~= mask_of(pixels@, mode));
    mask
}

} // verus!
