//! Views: rectangles that were clipped to fit in a parent rectangle.

use core::ops::Range;
use vstd::prelude::*;
use vstd::std_specs::convert::FromSpecImpl;

use crate::geom::{at_least_zero, fits_i32, i32_or_zero, Coordinate, Rect, Size};

verus! {

/// The larger of two numbers.
pub open spec fn larger(a: int, b: int) -> int {
    if a >= b {
        a
    } else {
        b
    }
}

/// The smaller of two numbers.
pub open spec fn smaller(a: int, b: int) -> int {
    if a <= b {
        a
    } else {
        b
    }
}

/// Whether the two rectangles have a pixel in common.
pub open spec fn overlaps(a: Rect, b: Rect) -> bool {
    &&& larger(a.x as int, b.x as int) < smaller(a.right_edge(), b.right_edge())
    &&& larger(a.y as int, b.y as int) < smaller(a.bottom_edge(), b.bottom_edge())
}

/// The rectangle of the pixels that two overlapping rectangles have in common.
pub open spec fn intersection(a: Rect, b: Rect) -> Rect {
    let x = larger(a.x as int, b.x as int);
    let y = larger(a.y as int, b.y as int);
    Rect {
        x: x as i32,
        y: y as i32,
        size: Size {
            width: (smaller(a.right_edge(), b.right_edge()) - x) as u32,
            height: (smaller(a.bottom_edge(), b.bottom_edge()) - y) as u32,
        },
    }
}

/// The part of `a` from the left and top edge of `b` on that is not beyond the
/// right or bottom edge of `b`. Where nothing is left the side is zero.
pub open spec fn clipped(a: Rect, b: Rect) -> Rect {
    let x = larger(a.x as int, b.x as int);
    let y = larger(a.y as int, b.y as int);
    Rect {
        x: x as i32,
        y: y as i32,
        size: Size {
            width: at_least_zero(smaller(a.right_edge(), b.right_edge()) - x) as u32,
            height: at_least_zero(smaller(a.bottom_edge(), b.bottom_edge()) - y) as u32,
        },
    }
}

/// Two rectangles overlap exactly when they share a pixel, and their
/// intersection holds the shared pixels and no other.
pub proof fn lemma_intersection_pixels(a: Rect, b: Rect)
    ensures
        overlaps(a, b) <==> exists|px: int, py: int| a.contains(px, py) && b.contains(px, py),
        overlaps(a, b) ==> forall|px: int, py: int|
            intersection(a, b).contains(px, py) <==> a.contains(px, py) && b.contains(px, py),
        overlaps(a, b) ==> intersection(a, b).within(a) && intersection(a, b).within(b)
            && !intersection(a, b).is_empty(),
{
    if overlaps(a, b) {
        let x = larger(a.x as int, b.x as int);
        let y = larger(a.y as int, b.y as int);
        assert(a.contains(x, y) && b.contains(x, y));
    }
}

/// A rectangle that lies inside its parent, so that its rows can be taken
/// from the parent's buffer.
#[derive(Debug, Clone, Copy, PartialEq, Eq, Structural)]
pub struct ImageView(pub Rect);

impl ImageView {
    /// Whether the view lies inside a buffer of the size.
    pub open spec fn inside(self, parent_size: Size) -> bool {
        self.0.within(Rect::spanning(parent_size))
    }

    /// Create a new view: the part of `target` that lies in `parent`.
    ///
    /// When it's `None` the view doesn't contain any actual pixels: `target`
    /// is empty, or the two have no pixel in common.
    pub fn new(target: Rect, parent: Rect) -> (r: Option<Self>)
        ensures
            r.is_none() <==> target.is_empty() || !overlaps(target, parent),
            r.is_some() ==> r.unwrap().0 == intersection(target, parent),
            r.is_some() ==> r.unwrap().0.within(parent) && r.unwrap().0.within(target)
                && !r.unwrap().0.is_empty(),
    {
        // No view when the size of the target is zero
        if target.size.width == 0 || target.size.height == 0 {
            return None;
        }
        let parent_right: i64 = parent.x as i64 + parent.size.width as i64;
        let parent_bottom: i64 = parent.y as i64 + parent.size.height as i64;
        let target_right: i64 = target.x as i64 + target.size.width as i64;
        let target_bottom: i64 = target.y as i64 + target.size.height as i64;

        // Clip the target to the left and top side
        let x: i64 = if target.x >= parent.x {
            target.x as i64
        } else {
            parent.x as i64
        };
        let y: i64 = if target.y >= parent.y {
            target.y as i64
        } else {
            parent.y as i64
        };

        // Clip the right and bottom side
        let right: i64 = if target_right <= parent_right {
            target_right
        } else {
            parent_right
        };
        let bottom: i64 = if target_bottom <= parent_bottom {
            target_bottom
        } else {
            parent_bottom
        };

        // No pixels will be drawn when the target is outside of the bounds of the parent
        if x >= right || y >= bottom {
            return None;
        }
        Some(Self::new_unchecked(x, y, Size::new(right - x, bottom - y)))
    }

    /// Create a new view without checking if it fits in the parent. A position
    /// that is no `i32` becomes zero.
    pub fn new_unchecked(x: i64, y: i64, size: Size) -> (r: Self)
        ensures
            r.0.x == i32_or_zero(x as int),
            r.0.y == i32_or_zero(y as int),
            r.0.size == size,
    {
        Self(Rect::new(x, y, size))
    }

    /// Create a full view of a complete buffer.
    pub fn full(size: Size) -> (r: Self)
        ensures
            r.0 == Rect::spanning(size),
            r.inside(size),
    {
        Self(Rect { x: 0, y: 0, size })
    }

    /// Horizontal ranges in the buffer the view is based on, one for each row
    /// from the top down.
    ///
    /// Each range represents a slice of pixels that can be taken.
    pub fn parent_ranges_iter(&self, parent_size: Size) -> (r: Vec<Range<usize>>)
        requires
            self.0.x >= 0,
            self.0.y >= 0,
            self.0.rows_fit(parent_size),
        ensures
            r@.len() == self.0.size.height,
            forall|row: int|
                0 <= row < self.0.size.height ==> (#[trigger] r@[row]).start == (self.0.y + row)
                    * parent_size.width + self.0.x && r@[row].end == r@[row].start
                    + self.0.size.width,
    {
        self.0.parent_ranges_iter(parent_size)
    }

    /// Size in pixels.
    pub fn size(&self) -> (r: Size)
        ensures
            r == self.0.size,
    {
        self.0.size
    }

    /// Create a sub-view based on this view: the part of `target` that lies in it.
    pub fn sub(&self, target: Rect) -> (r: Option<Self>)
        ensures
            r.is_none() <==> target.is_empty() || !overlaps(target, self.0),
            r.is_some() ==> r.unwrap().0 == intersection(target, self.0),
            r.is_some() ==> r.unwrap().0.within(self.0) && r.unwrap().0.within(target)
                && !r.unwrap().0.is_empty(),
    {
        Self::new(target, self.0)
    }

    /// The rectangle at `(x, y)` whose sides are shortened by what lies left
    /// of or above zero.
    pub open spec fn shortened(x: i32, y: i32, size: Size) -> Rect {
        Rect {
            x,
            y,
            size: Size {
                width: at_least_zero(size.width - at_least_zero(-x)) as u32,
                height: at_least_zero(size.height - at_least_zero(-y)) as u32,
            },
        }
    }

    /// Create a sub rectangle where the position can be negative.
    ///
    /// The sides are first shortened by the pixels left of and above zero; what
    /// is left is taken at the position given and clipped by this view.
    pub fn sub_i32(&self, x: i32, y: i32, size: Size) -> (r: Option<Self>)
        ensures
            r.is_none() <==> Self::shortened(x, y, size).is_empty() || !overlaps(
                Self::shortened(x, y, size),
                self.0,
            ),
            r.is_some() ==> r.unwrap().0 == intersection(Self::shortened(x, y, size), self.0),
    {
        // Calculate how much pixels lie before zero
        let offset_x: i64 = if x < 0 {
            -(x as i64)
        } else {
            0
        };
        let offset_y: i64 = if y < 0 {
            -(y as i64)
        } else {
            0
        };
        // Remove the clipped pixels from the size
        let new_width: i64 = if size.width as i64 > offset_x {
            size.width as i64 - offset_x
        } else {
            0
        };
        let new_height: i64 = if size.height as i64 > offset_y {
            size.height as i64 - offset_y
        } else {
            0
        };

        Self::new(Rect::new(x as i64, y as i64, Size::new(new_width, new_height)), self.0)
    }

    /// Clip the view to fit in another one.
    ///
    /// A side of which nothing is left gets the length zero.
    pub fn clip(&self, other: Rect) -> (r: ImageView)
        ensures
            r.0 == clipped(self.0, other),
            !r.0.is_empty() ==> r.0 == intersection(self.0, other) && overlaps(self.0, other),
    {
        let right: i64 = self.0.x as i64 + self.0.size.width as i64;
        let bottom: i64 = self.0.y as i64 + self.0.size.height as i64;
        let other_right: i64 = other.x as i64 + other.size.width as i64;
        let other_bottom: i64 = other.y as i64 + other.size.height as i64;

        // Clip the left and the top edge
        let x: i32 = if self.0.x < other.x {
            other.x
        } else {
            self.0.x
        };
        let y: i32 = if self.0.y < other.y {
            other.y
        } else {
            self.0.y
        };
        // Clip the right and the bottom edge
        let end_x: i64 = if right > other_right {
            other_right
        } else {
            right
        };
        let end_y: i64 = if bottom > other_bottom {
            other_bottom
        } else {
            bottom
        };
        let width: i64 = if end_x > x as i64 {
            end_x - x as i64
        } else {
            0
        };
        let height: i64 = if end_y > y as i64 {
            end_y - y as i64
        } else {
            0
        };

        ImageView(Rect { x, y, size: Size { width: width as u32, height: height as u32 } })
    }

    /// Slide the view to the position `(new_x, new_y)` while its far edges
    /// stay where they are.
    ///
    /// The view that comes back lies inside this one. With it comes the
    /// offset that the paired view of the source has to be moved by: how far
    /// the position lies left of or above this view. A position that is no
    /// `i32` counts as zero.
    pub fn shift(&self, new_x: i64, new_y: i64) -> (r: (ImageView, Coordinate))
        requires
            fits_i32(Rect::shifted_offset(self.0.x as int, i32_or_zero(new_x as int) as int)),
            fits_i32(Rect::shifted_offset(self.0.y as int, i32_or_zero(new_y as int) as int)),
        ensures
            r.0.0 == self.0.shifted(
                i32_or_zero(new_x as int) as int,
                i32_or_zero(new_y as int) as int,
            ),
            r.0.0.within(self.0),
            r.1.x == Rect::shifted_offset(self.0.x as int, i32_or_zero(new_x as int) as int),
            r.1.y == Rect::shifted_offset(self.0.y as int, i32_or_zero(new_y as int) as int),
    {
        let (uv, rect) = self.0.shift(new_x, new_y);
        (ImageView(rect), uv)
    }

    /// Get the amount of X pixels.
    pub fn width(&self) -> (r: u32)
        ensures
            r == self.0.size.width,
    {
        self.0.size.width
    }

    /// Get the amount of Y pixels.
    pub fn height(&self) -> (r: u32)
        ensures
            r == self.0.size.height,
    {
        self.0.size.height
    }

    /// X Y coordinates.
    pub fn coord(&self) -> (r: (i32, i32))
        ensures
            r.0 == self.0.x,
            r.1 == self.0.y,
    {
        (self.0.x, self.0.y)
    }

    /// Get our data as the subrectangle.
    pub fn as_sub_rect(&self) -> (r: Rect)
        ensures
            r == self.0,
    {
        self.0
    }
}

impl From<ImageView> for Rect {
    fn from(view: ImageView) -> (r: Self) {
        view.0
    }
}

impl FromSpecImpl<ImageView> for Rect {
    open spec fn obeys_from_spec() -> bool {
        true
    }

    open spec fn from_spec(view: ImageView) -> Self {
        view.0
    }
}

} // verus!
