//! The packed color of a pixel and the rule by which a pixel is drawn.
//!
//! A color is a `u32`: the highest 8 bits tell whether the pixel is drawn and
//! the remaining 24 bits hold the red, green and blue channels.

use vstd::prelude::*;

verus! {

/// The bits of a color that tell whether the pixel is drawn.
pub const OPAQUE: u32 = 0xFF00_0000;

/// The color that a drawn pixel leaves: the source where any of its highest
/// 8 bits is set, else the color that was there.
pub open spec fn composite(dst_pixel: u32, blit_pixel: u32) -> u32 {
    if (blit_pixel >> 24u32) > 0 {
        blit_pixel
    } else {
        dst_pixel
    }
}

/// The color that is stored for a pixel whose alpha channel sits in its
/// highest 8 bits: nothing below the threshold, the fully opaque color from
/// the threshold on.
pub open spec fn binarized(pixel: u32, alpha_treshold: u8) -> u32 {
    if pixel < ((alpha_treshold as u32) << 24u32) {
        0
    } else {
        pixel | OPAQUE
    }
}

/// The color packed from four channels, the low 32 bits of it.
pub open spec fn packed(a: u64, r: u64, g: u64, b: u64) -> u32 {
    ((a << 24u64) | (r << 16u64) | (g << 8u64) | b) as u32
}

/// The color that is stored for an opaque pixel of the three channels when
/// `mask_color` is the color that stands for transparency.
pub open spec fn masked(r: u64, g: u64, b: u64, mask_color: u32) -> u32 {
    let pixel = packed(0xFF, r, g, b);
    if pixel == (mask_color | OPAQUE) {
        0
    } else {
        pixel
    }
}

/// A stored pixel is transparent or fully opaque, and it is transparent
/// exactly when its alpha channel is below the threshold.
pub proof fn lemma_binarized_alpha(pixel: u32, alpha_treshold: u8)
    ensures
        binarized(pixel, alpha_treshold) >> 24u32 == 0 || binarized(pixel, alpha_treshold) >> 24u32
            == 0xFF,
        binarized(pixel, alpha_treshold) == 0 <==> (pixel >> 24u32) < alpha_treshold,
        binarized(pixel, alpha_treshold) != 0 ==> binarized(pixel, alpha_treshold) & 0x00FF_FFFF
            == pixel & 0x00FF_FFFF,
{
    let t = alpha_treshold as u32;
    assert(t < 256);
    assert(pixel < (t << 24u32) <==> (pixel >> 24u32) < t) by (bit_vector)
        requires
            t < 256,
    ;
    assert((pixel | 0xFF00_0000u32) >> 24u32 == 0xFF) by (bit_vector);
    assert((pixel | 0xFF00_0000u32) != 0) by (bit_vector);
    assert((pixel | 0xFF00_0000u32) & 0x00FF_FFFFu32 == pixel & 0x00FF_FFFFu32) by (bit_vector);
    assert(0u32 >> 24u32 == 0) by (bit_vector);
}

/// A transparent source pixel leaves the destination as it is, any other
/// replaces it.
pub proof fn lemma_composite_binary(dst_pixel: u32, blit_pixel: u32)
    ensures
        blit_pixel >> 24u32 == 0 ==> composite(dst_pixel, blit_pixel) == dst_pixel,
        blit_pixel >> 24u32 != 0 ==> composite(dst_pixel, blit_pixel) == blit_pixel,
        composite(dst_pixel, 0) == dst_pixel,
{
    assert(0u32 >> 24u32 == 0) by (bit_vector);
}

/// Four channels of 8 bits each can be read back from the packed color.
pub proof fn lemma_packed_channels(a: u64, r: u64, g: u64, b: u64)
    requires
        a <= 0xFF,
        r <= 0xFF,
        g <= 0xFF,
        b <= 0xFF,
    ensures
        packed(a, r, g, b) >> 24u32 == a,
        (packed(a, r, g, b) >> 16u32) & 0xFF == r,
        (packed(a, r, g, b) >> 8u32) & 0xFF == g,
        packed(a, r, g, b) & 0xFF == b,
{
    let c = ((a << 24u64) | (r << 16u64) | (g << 8u64) | b) as u32;
    assert(c >> 24u32 == a && (c >> 16u32) & 0xFF == r && (c >> 8u32) & 0xFF == g && c & 0xFF
        == b) by (bit_vector)
        requires
            c == ((a << 24u64) | (r << 16u64) | (g << 8u64) | b) as u32,
            a <= 0xFF,
            r <= 0xFF,
            g <= 0xFF,
            b <= 0xFF,
    ;
}

/// Decide by the alpha channel of a pixel whether it is stored as a
/// transparent or as an opaque one.
pub fn binarize(pixel: u32, alpha_treshold: u8) -> (r: u32)
    ensures
        r == binarized(pixel, alpha_treshold),
{
    // Shift the alpha to the highest bits so we can do a direct comparison
    let alpha_treshold: u32 = (alpha_treshold as u32) << 24u32;
    if pixel < alpha_treshold {
        0x00_00_00_00
    } else {
        pixel | OPAQUE
    }
}

/// Convert separate color components into a single packed color.
///
/// The type is `u64` because that's what any kind of channel converts to.
/// Bits of a channel above its lowest 8 run into the channel before it.
pub fn color_from_u64(a: u64, r: u64, g: u64, b: u64) -> (c: u32)
    ensures
        c == packed(a, r, g, b),
{
    ((a << 24u64) | (r << 16u64) | (g << 8u64) | b) as u32
}

/// The stored color of an opaque pixel, or transparency where the pixel has
/// the mask color.
pub fn mask_pixel(r: u64, g: u64, b: u64, mask_color: u32) -> (c: u32)
    ensures
        c == masked(r, g, b, mask_color),
{
    // Remove the alpha channel
    let mask_color: u32 = mask_color | OPAQUE;
    let pixel: u32 = color_from_u64(0xFF, r, g, b);

    // If the pixel matches the mask color return nothing
    if pixel == mask_color {
        0x0
    } else {
        pixel
    }
}

} // verus!
