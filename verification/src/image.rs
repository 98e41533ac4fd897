//! Images that are held as separate color channels, and their conversion to
//! buffers.

use vstd::prelude::*;

use crate::buffer::{stored, BlitBuffer, ToBlitBuffer};
use crate::geom::Size;
use crate::pixel::{color_from_u64, mask_pixel, masked, packed};

verus! {

/// The channels of one pixel, each as the number it stands for in the image.
#[derive(Debug, Clone, Copy, PartialEq, Eq, Structural)]
pub struct Channels {
    /// Red.
    pub r: u64,
    /// Green.
    pub g: u64,
    /// Blue.
    pub b: u64,
    /// Alpha, the opacity.
    pub a: u64,
}

/// An image as rows of pixels with four channels each.
#[derive(Debug, Clone, PartialEq, Eq)]
pub struct ChannelImage {
    /// Width in pixels.
    pub width: u32,
    /// The pixels of the image, row by row.
    pub pixels: Vec<Channels>,
}

/// The colors of the pixels when the alpha channel is kept: alpha in the
/// highest 8 bits, then red, green and blue.
pub open spec fn alpha_colors(pixels: Seq<Channels>) -> Seq<u32> {
    Seq::new(pixels.len(), |i: int| packed(pixels[i].a, pixels[i].r, pixels[i].g, pixels[i].b))
}

/// The colors of the pixels when one color stands for transparency: each
/// pixel is opaque unless it has the mask color.
pub open spec fn mask_colors(pixels: Seq<Channels>, mask_color: u32) -> Seq<u32> {
    Seq::new(pixels.len(), |i: int| masked(pixels[i].r, pixels[i].g, pixels[i].b, mask_color))
}

impl ChannelImage {
    /// Size of the buffer that the image is converted to: as high as the
    /// image has full rows.
    pub open spec fn dimensions(self) -> Size {
        Size { width: self.width, height: ((self.pixels@.len() as int) / (self.width as int)) as u32 }
    }
}

impl ToBlitBuffer for ChannelImage {
    /// The image is as wide as one pixel at least, it has a full row of
    /// pixels at least, and the number of its rows is a `u32`.
    open spec fn convertible(&self) -> bool {
        0 < self.width <= self.pixels@.len() && (self.pixels@.len() as int) / (self.width as int)
            <= u32::MAX
    }

    fn to_blit_buffer_with_mask_color(&self, mask_color: u32) -> (r: BlitBuffer)
        ensures
            r.dimensions() == self.dimensions(),
            r@ == stored(mask_colors(self.pixels@, mask_color), r.dimensions().area(), 127),
    {
        let mut colors: Vec<u32> = Vec::new();
        let mut i: usize = 0;
        while i < self.pixels.len()
            invariant
                i <= self.pixels@.len(),
                colors@ == mask_colors(self.pixels@.take(i as int), mask_color),
            decreases self.pixels@.len() - i,
        {
            let pixel = self.pixels[i];
            colors.push(mask_pixel(pixel.r, pixel.g, pixel.b, mask_color));
            proof {
                assert(colors@ =~= mask_colors(self.pixels@.take(i + 1), mask_color));
            }
            i = i + 1;
        }
        proof {
            assert(self.pixels@.take(i as int) =~= self.pixels@);
        }
        BlitBuffer::from_iter(colors, self.width as i64, 127)
    }

    fn to_blit_buffer_with_alpha(&self, alpha_treshold: u8) -> (r: BlitBuffer)
        ensures
            r.dimensions() == self.dimensions(),
            r@ == stored(alpha_colors(self.pixels@), r.dimensions().area(), alpha_treshold),
    {
        let mut colors: Vec<u32> = Vec::new();
        let mut i: usize = 0;
        while i < self.pixels.len()
            invariant
                i <= self.pixels@.len(),
                colors@ == alpha_colors(self.pixels@.take(i as int)),
            decreases self.pixels@.len() - i,
        {
            let pixel = self.pixels[i];
            // RGBA -> ARGB
            colors.push(color_from_u64(pixel.a, pixel.r, pixel.g, pixel.b));
            proof {
                assert(colors@ =~= alpha_colors(self.pixels@.take(i + 1)));
            }
            i = i + 1;
        }
        proof {
            assert(self.pixels@.take(i as int) =~= self.pixels@);
        }
        BlitBuffer::from_iter(colors, self.width as i64, alpha_treshold)
    }
}

} // verus!
