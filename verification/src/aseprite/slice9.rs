//! Graphics that are scaled as 9-slice graphics.

use vstd::prelude::*;

use crate::aseprite::SpritesheetData;
use crate::buffer::{blit_drawn, Blit, BlitBuffer};
use crate::error::Error;
use crate::geom::{u32_or, Rect, Size};
use crate::options::BlitOptions;
use crate::slice::Slice;
use crate::view::{larger, smaller};

verus! {

/// `BlitBuffer` with extra information for rendering as a scalable slice 9 graphic.
///
/// The slice information for scaling it should be exported in the metadata of the sheet.
#[derive(Debug)]
pub struct Slice9BlitBuffer {
    /// Full image.
    buffer: BlitBuffer,
    /// X position of both vertical slices.
    vertical_slices: (i32, i32),
    /// Y position of both horizontal slices.
    horizontal_slices: (i32, i32),
}

/// The splits of one axis around a center piece that starts at `start` and
/// is `length` long. A split beyond the range of `i32` is cut to its low 32
/// bits.
pub open spec fn center_splits(start: i32, length: u32) -> (i32, i32) {
    (start, (start + length) as i32)
}

/// The ternary slice with the splits. A split below zero counts as zero.
pub open spec fn splits_slice(splits: (i32, i32)) -> Slice {
    Slice::Ternary {
        split_first: u32_or(splits.0 as int, 0),
        split_last: u32_or(splits.1 as int, 0),
    }
}

impl Slice9BlitBuffer {
    /// The full image.
    pub closed spec fn image(self) -> BlitBuffer {
        self.buffer
    }

    /// The two positions at which the image is cut from top to bottom.
    pub closed spec fn columns(self) -> (i32, i32) {
        self.vertical_slices
    }

    /// The two positions at which the image is cut from left to right.
    pub closed spec fn rows(self) -> (i32, i32) {
        self.horizontal_slices
    }

    /// The options with the slices of this graphic set.
    pub open spec fn sliced(self, options: BlitOptions) -> BlitOptions {
        BlitOptions {
            vertical_slice: Some(splits_slice(self.columns())),
            horizontal_slice: Some(splits_slice(self.rows())),
            ..options
        }
    }

    /// The size that the graphic is scaled to when `size` is asked for in a
    /// destination of the size `dst_size`: never smaller than the image, as
    /// far as the destination has room for it.
    pub open spec fn scaled_size(self, size: Size, dst_size: Size) -> Size {
        Size {
            width: smaller(
                larger(size.width as int, self.image().dimensions().width as int),
                dst_size.width as int,
            ) as u32,
            height: smaller(
                larger(size.height as int, self.image().dimensions().height as int),
                dst_size.height as int,
            ) as u32,
        }
    }

    /// The options with which the image is drawn to fill an area: the image
    /// as it is where the area is not bigger than the image on any side, else
    /// the image scaled by its slices.
    pub open spec fn area_options(self, area: Rect, dst_size: Size) -> BlitOptions {
        if area.size.width <= self.image().dimensions().width && area.size.height
            <= self.image().dimensions().height {
            BlitOptions::at(area.x, area.y)
        } else {
            self.sliced(
                BlitOptions {
                    area: Some(self.scaled_size(area.size, dst_size)),
                    ..BlitOptions::at(area.x, area.y)
                },
            )
        }
    }

    /// Construct a new buffer for scaling a graphic, with the center of the
    /// first key of the first slice of the sheet.
    ///
    /// Fails where the sheet has no slice, where the first slice has no key,
    /// and where that key has no center.
    pub fn new(buffer: BlitBuffer, info: SpritesheetData) -> (r: Result<Self, Error>)
        ensures
            match r {
                Ok(sliced) => {
                    &&& info.slices@.len() > 0
                    &&& info.slices@[0].keys@.len() > 0
                    &&& info.slices@[0].keys@[0].center.is_some()
                    &&& sliced.image() == buffer
                    &&& sliced.columns() == center_splits(
                        info.slices@[0].keys@[0].center.unwrap().x,
                        info.slices@[0].keys@[0].center.unwrap().size.width,
                    )
                    &&& sliced.rows() == center_splits(
                        info.slices@[0].keys@[0].center.unwrap().y,
                        info.slices@[0].keys@[0].center.unwrap().size.height,
                    )
                },
                Err(Error::NoSlicesInMetadata) => info.slices@.len() == 0,
                Err(Error::NoSliceKeyInSlice(name)) => info.slices@.len() > 0
                    && info.slices@[0].keys@.len() == 0 && name@ == info.slices@[0].name@,
                Err(Error::NoSliceCenterInSliceKey(name)) => info.slices@.len() > 0
                    && info.slices@[0].keys@.len() > 0 && info.slices@[0].keys@[0].center.is_none()
                    && name@ == info.slices@[0].name@,
                Err(_) => false,
            },
    {
        // Get the center info from the slices
        if info.slices.len() == 0 {
            return Err(Error::NoSlicesInMetadata);
        }
        let slice = &info.slices[0];
        if slice.keys.len() == 0 {
            return Err(Error::NoSliceKeyInSlice(slice.name.clone()));
        }
        let center = match slice.keys[0].center {
            Some(center) => center,
            None => {
                return Err(Error::NoSliceCenterInSliceKey(slice.name.clone()));
            },
        };

        let vertical_slices = (center.x, (center.x as i64 + center.size.width as i64) as i32);
        let horizontal_slices = (center.y, (center.y as i64 + center.size.height as i64) as i32);

        Ok(Self { buffer, vertical_slices, horizontal_slices })
    }

    /// Size of the image in pixels.
    pub fn size(&self) -> (r: Size)
        ensures
            r == self.image().dimensions(),
    {
        self.buffer.size()
    }

    /// The ternary slice with the splits.
    fn slice_of(splits: (i32, i32)) -> (r: Slice)
        ensures
            r == splits_slice(splits),
    {
        Slice::ternary(splits.0 as i64, splits.1 as i64)
    }

    /// Draw the graphic so that it fills the area of the destination.
    ///
    /// If the requested size is smaller or equal to the size of the image
    /// the whole image is drawn as it is. Else the corners keep their size
    /// and the edges and the center are repeated to fill the rest. The size
    /// can't be bigger than the destination.
    pub fn blit_area(&self, dst: &mut [u32], dst_size: Size, area: Rect)
        requires
            self.image().wf(),
            old(dst)@.len() == dst_size.area(),
        ensures
            final(dst)@ == blit_drawn(
                old(dst)@,
                dst_size,
                self.image()@,
                self.image().dimensions(),
                self.area_options(area, dst_size),
            ),
    {
        // If the requested size is smaller or equal to our buffer size just render the whole buffer
        if area.size.width <= self.buffer.width() && area.size.height <= self.buffer.height() {
            let options = BlitOptions {
                x: area.x,
                y: area.y,
                area: None,
                sub_rect: None,
                mask: None,
                vertical_slice: None,
                horizontal_slice: None,
            };
            self.buffer.blit(dst, dst_size, &options);

            return ;
        }
        // The size can't be smaller than the source or bigger than the target

        let size = Size {
            width: Self::limited(area.size.width, self.buffer.width(), dst_size.width),
            height: Self::limited(area.size.height, self.buffer.height(), dst_size.height),
        };
        let options = BlitOptions {
            x: area.x,
            y: area.y,
            area: Some(size),
            sub_rect: None,
            mask: None,
            vertical_slice: Some(Self::slice_of(self.vertical_slices)),
            horizontal_slice: Some(Self::slice_of(self.horizontal_slices)),
        };
        self.buffer.blit(dst, dst_size, &options);
    }

    /// The length raised to `least` and then cut to `most`.
    fn limited(length: u32, least: u32, most: u32) -> (r: u32)
        ensures
            r == smaller(larger(length as int, least as int), most as int),
    {
        let length: u32 = if length >= least {
            length
        } else {
            least
        };
        if length <= most {
            length
        } else {
            most
        }
    }
}

impl Blit for Slice9BlitBuffer {
    open spec fn ready(&self) -> bool {
        self.image().wf()
    }

    /// The image is drawn as the options say, cut by the slices of the graphic.
    open spec fn drawn(&self, dst: Seq<u32>, dst_size: Size, options: BlitOptions) -> Seq<u32> {
        blit_drawn(dst, dst_size, self.image()@, self.image().dimensions(), self.sliced(options))
    }

    fn blit(&self, dst: &mut [u32], dst_size: Size, options: &BlitOptions) {
        let options = options.with_vertical_slice(
            Self::slice_of(self.vertical_slices),
        ).with_horizontal_slice(Self::slice_of(self.horizontal_slices));
        self.buffer.blit(dst, dst_size, &options);
    }
}

} // verus!
