//! How, where and which part of the image to render.

use vstd::prelude::*;

use crate::convert::to_i32;
use crate::geom::{i32_or_zero, u32_or, Rect, Size};
use crate::slice::Slice;

verus! {

/// How, where and which part of the image to render.
///
/// Slices can be used to control which part gets scaled using tiling scaling.
#[derive(Debug, Clone, Copy, PartialEq)]
pub struct BlitOptions {
    /// Horizontal position on the destination buffer.
    pub x: i32,
    /// Vertical position on the destination buffer.
    pub y: i32,
    /// Size of the area `(width, height)` on the destination buffer.
    ///
    /// - When `None` is used, the size of the source buffer or of the subrectangle if set will be used.
    /// - When the area is smaller than the source buffer it effectively functions as the width and height parameters of [`BlitOptions::sub_rect`].
    /// - When the area is bigger than the source buffer the default behaviour will be tiling.
    pub area: Option<Size>,
    /// Which part of the source buffer to render.
    ///
    /// - When `None` is used, `(0, 0, source_width, source_height)` is set instead.
    /// - With `Some(..)`, the values in the tuple are `(x, y, width, height)`.
    ///
    /// This is similar to UV coordinates but instead of relative positions in the range of `0..1` this takes absolute positions in the range `0..width` for horizontal positions and `0..height` for vertical positions.
    pub sub_rect: Option<Rect>,
    /// Which part of the target buffer to render.
    ///
    /// - When `None` is used, `(0, 0, target_width, target_height)` is set instead.
    /// - With `Some(..)`, the values in the tuple are `(x, y, width, height)`.
    pub mask: Option<Rect>,
    /// Divide the source buffer into multiple vertical sections and repeat the chosen section to fill the area.
    ///
    /// This is only used when [`BlitOptions::area`] is set.
    pub vertical_slice: Option<Slice>,
    /// Divide the source buffer into multiple horizontal sections and repeat the chosen section to fill the area.
    ///
    /// This is only used when [`BlitOptions::area`] is set.
    pub horizontal_slice: Option<Slice>,
}

impl Default for BlitOptions {
    fn default() -> (r: Self)
        ensures
            r == BlitOptions::at(0, 0),
    {
        Self {
            x: 0,
            y: 0,
            area: None,
            sub_rect: None,
            mask: None,
            vertical_slice: None,
            horizontal_slice: None,
        }
    }
}

/// The ternary slice of one axis of a 9-slice graphic whose center piece
/// starts at `start` and is `length` long. A split that is no `u32` is zero.
pub open spec fn center_slice(start: i32, length: u32) -> Slice {
    Slice::Ternary {
        split_first: u32_or(start as int, 0),
        split_last: u32_or(start + length, 0),
    }
}

impl BlitOptions {
    /// The options that render the full source at a position and set nothing else.
    pub open spec fn at(x: i32, y: i32) -> BlitOptions {
        BlitOptions {
            x,
            y,
            area: None,
            sub_rect: None,
            mask: None,
            vertical_slice: None,
            horizontal_slice: None,
        }
    }

    /// The destination area: the one that is set, else the size of the source.
    pub open spec fn area_for(self, source_size: Size) -> Size {
        match self.area {
            Some(area) => area,
            None => source_size,
        }
    }

    /// The part of the source to draw: the sub rectangle that is set, else the
    /// full source, and never bigger than the area that is set.
    pub open spec fn sub_rect_for(self, source_size: Size) -> Rect {
        let sub_rect = match self.sub_rect {
            Some(sub_rect) => sub_rect,
            None => Rect::spanning(source_size),
        };
        match self.area {
            Some(area) => Rect {
                x: sub_rect.x,
                y: sub_rect.y,
                size: Size {
                    width: if sub_rect.size.width <= area.width {
                        sub_rect.size.width
                    } else {
                        area.width
                    },
                    height: if sub_rect.size.height <= area.height {
                        sub_rect.size.height
                    } else {
                        area.height
                    },
                },
            },
            None => sub_rect,
        }
    }

    /// Setup options for blitting at position `(0, 0)`.
    ///
    /// When no other fields are changed or methods are called this will render the full source.
    #[must_use]
    pub fn new() -> (r: Self)
        ensures
            r == BlitOptions::at(0, 0),
    {
        Self {
            x: 0,
            y: 0,
            area: None,
            sub_rect: None,
            mask: None,
            vertical_slice: None,
            horizontal_slice: None,
        }
    }

    /// Setup options for blitting at position `(x, y)`. A coordinate that is
    /// no `i32` becomes zero.
    ///
    /// When no other fields are changed or methods are called this will render the full source.
    #[must_use]
    pub fn new_position(x: i64, y: i64) -> (r: Self)
        ensures
            r == BlitOptions::at(i32_or_zero(x as int), i32_or_zero(y as int)),
    {
        let x: i32 = match to_i32(x) {
            Some(x) => x,
            None => 0,
        };
        let y: i32 = match to_i32(y) {
            Some(y) => y,
            None => 0,
        };
        Self {
            x,
            y,
            area: None,
            sub_rect: None,
            mask: None,
            vertical_slice: None,
            horizontal_slice: None,
        }
    }

    /// Setup options for blitting at position `(x, y)`. A coordinate that is
    /// no `i32` becomes zero.
    ///
    /// When no other fields are changed or methods are called this will render the full source.
    #[must_use]
    pub fn new_position_tuple(position: (i64, i64)) -> (r: Self)
        ensures
            r == BlitOptions::at(i32_or_zero(position.0 as int), i32_or_zero(position.1 as int)),
    {
        Self::new_position(position.0, position.1)
    }

    /// Set the size of the area `(width, height)` on the destination buffer.
    ///
    /// - When the area is smaller than the source buffer it effectively functions as the width and height parameters of [`BlitOptions::sub_rect`].
    /// - When the area is bigger than the source buffer the default behaviour will be tiling.
    #[must_use]
    pub fn with_area(self, area: Size) -> (r: Self)
        ensures
            r == (BlitOptions { area: Some(area), ..self }),
    {
        let mut options = self;
        options.set_area(area);

        options
    }

    /// Set the size of the area `(width, height)` to only show on the destination buffer.
    #[must_use]
    pub fn with_mask(self, mask: Rect) -> (r: Self)
        ensures
            r == (BlitOptions { mask: Some(mask), ..self }),
    {
        let mut options = self;
        options.set_mask(mask);

        options
    }

    /// Set which part of the source buffer to render.
    ///
    /// This is similar to UV coordinates but instead of relative positions in the range of `0..1` this takes absolute positions in the range `0..width` for horizontal positions and `0..height` for vertical positions.
    ///
    /// Sets the area to the size of the sub rectangle if there's none yet.
    #[must_use]
    pub fn with_sub_rect(self, sub_rect: Rect) -> (r: Self)
        ensures
            r == (BlitOptions {
                sub_rect: Some(sub_rect),
                area: Some(self.area_for(sub_rect.size)),
                ..self
            }),
    {
        let mut options = self;
        options.set_sub_rect(sub_rect);

        options
    }

    /// Draw as a scalable [9-slice graphic](https://en.wikipedia.org/wiki/9-slice_scaling).
    ///
    /// The sub-rectangle of the center piece that will be scaled needs to be passed.
    /// Note that the rectangle has a width and a height instead of the absolute coordinates the other slice functions accept.
    #[must_use]
    pub fn with_slice9(self, center: Rect) -> (r: Self)
        ensures
            r == (BlitOptions {
                vertical_slice: Some(center_slice(center.x, center.size.width)),
                horizontal_slice: Some(center_slice(center.y, center.size.height)),
                ..self
            }),
    {
        let mut options = self;
        options.set_slice9(center);

        options
    }

    /// Scale a single horizontal piece of the buffer while keeping the other parts the same height.
    ///
    /// See [`crate::slice::Slice`] for more information.
    pub fn with_horizontal_slice(self, slice: Slice) -> (r: Self)
        ensures
            r == (BlitOptions { horizontal_slice: Some(slice), ..self }),
    {
        let mut options = self;
        options.horizontal_slice = Some(slice);

        options
    }

    /// Scale a single vertical piece of the buffer while keeping the other parts the same height.
    pub fn with_vertical_slice(self, slice: Slice) -> (r: Self)
        ensures
            r == (BlitOptions { vertical_slice: Some(slice), ..self }),
    {
        let mut options = self;
        options.vertical_slice = Some(slice);

        options
    }

    /// Set the render position on the target `(x, y)`. A coordinate that is no
    /// `i32` becomes zero.
    #[must_use]
    pub fn with_position(self, x: i64, y: i64) -> (r: Self)
        ensures
            r == (BlitOptions { x: i32_or_zero(x as int), y: i32_or_zero(y as int), ..self }),
    {
        let mut options = self;
        options.x = match to_i32(x) {
            Some(x) => x,
            None => 0,
        };
        options.y = match to_i32(y) {
            Some(y) => y,
            None => 0,
        };

        options
    }

    /// Set the position `(x, y)`.
    pub fn set_position(&mut self, position: (i32, i32))
        ensures
            *final(self) == (BlitOptions { x: position.0, y: position.1, ..*old(self) }),
    {
        self.x = position.0;
        self.y = position.1;
    }

    /// Get the position `(x, y)`.
    pub fn position(&self) -> (r: (i32, i32))
        ensures
            r.0 == self.x,
            r.1 == self.y,
    {
        (self.x, self.y)
    }

    /// Get the destination area `(width, height)`.
    ///
    /// If [`BlitOptions::area`] is `None` the size of the source will be returned.
    pub fn area(&self, source_size: Size) -> (r: Size)
        ensures
            r == self.area_for(source_size),
    {
        match self.area {
            Some(area) => area,
            None => source_size,
        }
    }

    /// Set which part of the source buffer to render.
    ///
    /// This is similar to UV coordinates but instead of relative positions in the range of `0..1` this takes absolute positions in the range `0..width` for horizontal positions and `0..height` for vertical positions.
    ///
    /// Sets the area to the size of the sub rectangle if there's none yet.
    pub fn set_sub_rect(&mut self, sub_rect: Rect)
        ensures
            *final(self) == (BlitOptions {
                sub_rect: Some(sub_rect),
                area: Some(old(self).area_for(sub_rect.size)),
                ..*old(self)
            }),
    {
        self.sub_rect = Some(sub_rect);

        // Don't tile the image when only the subrectangle is set
        if self.area.is_none() {
            self.area = Some(sub_rect.size);
        }
    }

    /// Get the source area sub rectangle `(x, y, width, height)`.
    ///
    /// - If [`BlitOptions::sub_rect`] is `None` the size of the source will be returned with `(0, 0)` as the position.
    /// - If [`BlitOptions::sub_rect`] and [`BlitOptions::area`] are set it, the `width` and `height` will be shrunk to match those of the area.
    pub fn sub_rect(&self, source_size: Size) -> (r: Rect)
        ensures
            r == self.sub_rect_for(source_size),
    {
        // Get the sub rectangle defined or from the source
        let mut sub_rect = match self.sub_rect {
            Some(sub_rect) => sub_rect,
            None => Rect::from_size(source_size),
        };

        // The sub rectangle is never allowed to be bigger than the area
        sub_rect.size = match self.area {
            Some(area) => sub_rect.size.min(area),
            None => sub_rect.size,
        };

        sub_rect
    }

    /// Set the size of the area `(width, height)` on the destination buffer.
    ///
    /// - When the area is smaller than the source buffer it effectively functions as the width and height parameters of [`BlitOptions::sub_rect`].
    /// - When the area is bigger than the source buffer the default behaviour will be tiling.
    pub fn set_area(&mut self, area: Size)
        ensures
            *final(self) == (BlitOptions { area: Some(area), ..*old(self) }),
    {
        self.area = Some(area);
    }

    /// Draw as a scalable [9-slice graphic](https://en.wikipedia.org/wiki/9-slice_scaling).
    ///
    /// The sub-rectangle of the center piece that will be scaled needs to be passed.
    /// Note that the rectangle has a width and a height instead of the absolute coordinates the other slice functions accept.
    pub fn set_slice9(&mut self, center: Rect)
        ensures
            *final(self) == (BlitOptions {
                vertical_slice: Some(center_slice(center.x, center.size.width)),
                horizontal_slice: Some(center_slice(center.y, center.size.height)),
                ..*old(self)
            }),
    {
        self.vertical_slice = Some(
            Slice::ternary(center.x as i64, center.x as i64 + center.size.width as i64),
        );
        self.horizontal_slice = Some(
            Slice::ternary(center.y as i64, center.y as i64 + center.size.height as i64),
        );
    }

    /// Set the size of the area `(width, height)` to only show on the destination buffer.
    pub fn set_mask(&mut self, mask: Rect)
        ensures
            *final(self) == (BlitOptions { mask: Some(mask), ..*old(self) }),
    {
        self.mask = Some(mask);
    }

    /// Scale a single horizontal piece of the buffer while keeping the other parts the same height.
    ///
    /// See [`crate::slice::Slice`] for more information.
    pub fn set_horizontal_slice(&mut self, slice: Slice)
        ensures
            *final(self) == (BlitOptions { horizontal_slice: Some(slice), ..*old(self) }),
    {
        self.horizontal_slice = Some(slice);
    }

    /// Scale a single vertical piece of the buffer while keeping the other parts the same height.
    pub fn set_vertical_slice(&mut self, slice: Slice)
        ensures
            *final(self) == (BlitOptions { vertical_slice: Some(slice), ..*old(self) }),
    {
        self.vertical_slice = Some(slice);
    }
}

} // verus!
