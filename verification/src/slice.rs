//! Divide the source buffer into multiple sections and repeat the chosen section to fill the area.
//!
//! A slice cuts one axis of the source in two or three parts. When the target
//! is longer or shorter than the source, one part takes up the whole
//! difference and the others keep the length they have in the source.

use vstd::prelude::*;

use crate::convert::to_u32;
use crate::geom::{at_least_zero, i32_or_zero, u32_or, Rect, Size};
use crate::view::{larger, smaller};

verus! {

/// Choose which split of the binary section to scale in a repeating fashion.
#[derive(Debug, Clone, Copy, PartialEq, Eq, Structural)]
pub enum BinarySection {
    /// Repeat the first section.
    ///
    /// When horizontal this is the top section.
    /// When vertical this is the left section.
    First,
    /// Repeat the second section.
    ///
    /// When horizontal this is the bottom section.
    /// When vertical this is the right section.
    Last,
}

/// Divide the source buffer into multiple sections and repeat the chosen section to fill the area.
#[derive(Debug, Clone, Copy, PartialEq, Eq, Structural)]
pub enum Slice {
    /// Split the buffer into two and repeat one of the sections.
    Binary {
        /// Position between the first and last section to split.
        split: u32,
        /// Which of the sections to scale when the area is bigger than the total size.
        repeat: BinarySection,
    },
    /// Split the buffer into three and repeat the middle section.
    ///
    /// If you want to resize either the left or right part a binary section is used.
    Ternary {
        /// Position between the first and the middle section.
        split_first: u32,
        /// Position between the middle and last section.
        split_last: u32,
    },
}

/// How a slice must be rendered.
#[derive(Debug, Clone, Copy, PartialEq, Eq, Structural)]
pub struct SliceProjection {
    /// Left part of the absolute range in the source buffer to take the image from.
    pub source_start: u32,
    /// Right part of the absolute range in the source buffer to take the image from.
    pub source_end: u32,
    /// Left part of the relative range in the destination buffer to draw into.
    pub target_start: u32,
    /// Right part of the relative range in the destination buffer to draw into.
    pub target_end: u32,
}

/// One part of a divided axis, before the empty parts are dropped.
pub open spec fn part(
    source_start: int,
    source_end: int,
    target_start: int,
    target_end: int,
) -> SliceProjection {
    SliceProjection {
        source_start: source_start as u32,
        source_end: source_end as u32,
        target_start: target_start as u32,
        target_end: target_end as u32,
    }
}

/// The part as a list, or nothing where its source or its target is empty.
pub open spec fn kept(projection: SliceProjection) -> Seq<SliceProjection> {
    if projection.is_drawn() {
        seq![projection]
    } else {
        Seq::empty()
    }
}

/// The length that all projections take up in the target together.
pub open spec fn target_total(projections: Seq<SliceProjection>) -> int
    decreases projections.len(),
{
    if projections.len() == 0 {
        0
    } else {
        target_total(projections.drop_last()) + projections.last().target_end
            - projections.last().target_start
    }
}

/// The length that all projections take from the source together.
pub open spec fn source_total(projections: Seq<SliceProjection>) -> int
    decreases projections.len(),
{
    if projections.len() == 0 {
        0
    } else {
        source_total(projections.drop_last()) + projections.last().source_end
            - projections.last().source_start
    }
}

impl Slice {
    /// The slice with its splits moved into `0..=source_length` and in order.
    /// A slice whose splits are in order and inside the source stays as it is.
    pub open spec fn splits(self, source_length: int) -> (int, int) {
        match self {
            Slice::Binary { split, .. } => {
                let split = smaller(split as int, source_length);
                (split, split)
            },
            Slice::Ternary { split_first, split_last } => {
                let first = smaller(split_first as int, source_length);
                (first, smaller(larger(split_last as int, first), source_length))
            },
        }
    }

    /// Whether the splits are in order and inside a source of the length.
    pub open spec fn fits(self, source_length: int) -> bool {
        match self {
            Slice::Binary { split, .. } => split <= source_length,
            Slice::Ternary { split_first, split_last } => split_first <= split_last
                <= source_length,
        }
    }

    /// The parts that the slice cuts an axis into, from first to last, with
    /// the range each one takes in the source and in the target.
    ///
    /// The parts that are not scaled keep the length they have in the source,
    /// as far as the target has room for them. The scaled part gets the rest.
    pub open spec fn parts(self, source_length: int, target_length: int) -> Seq<SliceProjection> {
        let (first, last) = self.splits(source_length);
        match self {
            Slice::Binary { repeat: BinarySection::First, .. } => {
                let middle = at_least_zero(target_length - (source_length - first));
                seq![
                    part(0, first, 0, middle),
                    part(first, source_length, middle, target_length),
                ]
            },
            Slice::Binary { repeat: BinarySection::Last, .. } => {
                let middle = smaller(first, target_length);
                seq![
                    part(0, first, 0, middle),
                    part(first, source_length, middle, target_length),
                ]
            },
            Slice::Ternary { .. } => {
                let middle_last = at_least_zero(target_length - (source_length - last));
                let middle_first = smaller(first, middle_last);
                seq![
                    part(0, first, 0, middle_first),
                    part(first, last, middle_first, middle_last),
                    part(last, source_length, middle_last, target_length),
                ]
            },
        }
    }

    /// The projections that are drawn: the parts that are empty neither in the
    /// source nor in the target, in their order.
    pub open spec fn divide(self, source_length: int, target_length: int) -> Seq<SliceProjection> {
        let parts = self.parts(source_length, target_length);
        if parts.len() == 2 {
            kept(parts[0]) + kept(parts[1])
        } else {
            kept(parts[0]) + kept(parts[1]) + kept(parts[2])
        }
    }

    /// Whether each part is empty on both sides or on none. Where a part has
    /// pixels in the source and no room in the target, or room and no pixels,
    /// it is dropped and its length is missing on the other side.
    pub open spec fn balanced(self, source_length: int, target_length: int) -> bool {
        let parts = self.parts(source_length, target_length);
        forall|i: int|
            0 <= i < parts.len() ==> ((#[trigger] parts[i]).source_start < parts[i].source_end
                <==> parts[i].target_start < parts[i].target_end)
    }

    /// Create a binary split where the first section is scaled.
    ///
    /// When horizontal this is the top section.
    /// When vertical this is the left section.
    /// A split that is no `u32` becomes zero.
    pub fn binary_first(split: i64) -> (r: Self)
        ensures
            r == (Slice::Binary { split: u32_or(split as int, 0), repeat: BinarySection::First }),
    {
        let split: u32 = match to_u32(split) {
            Some(split) => split,
            None => 0,
        };
        Self::Binary { split, repeat: BinarySection::First }
    }

    /// Create a binary split where the last section is scaled.
    ///
    /// When horizontal this is the bottom section.
    /// When vertical this is the right section.
    /// A split that is no `u32` becomes zero.
    pub fn binary_last(split: i64) -> (r: Self)
        ensures
            r == (Slice::Binary { split: u32_or(split as int, 0), repeat: BinarySection::Last }),
    {
        let split: u32 = match to_u32(split) {
            Some(split) => split,
            None => 0,
        };
        Self::Binary { split, repeat: BinarySection::Last }
    }

    /// Create a ternary split where the middle section is scaled.
    ///
    /// With both horizontal and vertical this is the middle section.
    /// A split that is no `u32` becomes zero.
    pub fn ternary(split_first: i64, split_last: i64) -> (r: Self)
        ensures
            r == (Slice::Ternary {
                split_first: u32_or(split_first as int, 0),
                split_last: u32_or(split_last as int, 0),
            }),
    {
        let split_first: u32 = match to_u32(split_first) {
            Some(split) => split,
            None => 0,
        };
        let split_last: u32 = match to_u32(split_last) {
            Some(split) => split,
            None => 0,
        };
        Self::Ternary { split_first, split_last }
    }

    /// Add the part to the projections unless it is empty in the source or in the target.
    fn push_part(
        projections: &mut Vec<SliceProjection>,
        source_start: u32,
        source_end: u32,
        target_start: u32,
        target_end: u32,
    )
        ensures
            final(projections)@ == old(projections)@ + kept(
                part(
                    source_start as int,
                    source_end as int,
                    target_start as int,
                    target_end as int,
                ),
            ),
    {
        if target_start < target_end && source_start < source_end {
            projections.push(
                SliceProjection::new(source_start, source_end, target_start, target_end),
            );
        }
    }

    /// Divide the given single dimensional area by the slice ranges.
    ///
    /// The projections come in the order of the parts. Each one lies inside
    /// the source and inside the target and is empty in neither.
    pub fn divide_area_iter(&self, source_length: u32, target_length: u32) -> (r: Vec<
        SliceProjection,
    >)
        ensures
            r@ == self.divide(source_length as int, target_length as int),
            r@.len() <= 3,
            forall|i: int|
                0 <= i < r@.len() ==> (#[trigger] r@[i]).source_start < r@[i].source_end
                    <= source_length && r@[i].target_start < r@[i].target_end <= target_length,
    {
        let mut projections: Vec<SliceProjection> = Vec::new();
        match *self {
            Slice::Binary { split, repeat } => {
                let split: u32 = if split <= source_length {
                    split
                } else {
                    source_length
                };
                // Find the middle intersection depending on which part needs to scale
                let middle: u32 = match repeat {
                    BinarySection::First => target_length.saturating_sub(source_length - split),
                    BinarySection::Last => if split <= target_length {
                        split
                    } else {
                        target_length
                    },
                };
                Self::push_part(&mut projections, 0, split, 0, middle);
                Self::push_part(&mut projections, split, source_length, middle, target_length);
            },
            Slice::Ternary { split_first, split_last } => {
                let first: u32 = if split_first <= source_length {
                    split_first
                } else {
                    source_length
                };
                let last: u32 = if split_last < first {
                    first
                } else if split_last <= source_length {
                    split_last
                } else {
                    source_length
                };
                // Find the two middle intersections, the first never lies behind the second
                let middle_last: u32 = target_length.saturating_sub(source_length - last);
                let middle_first: u32 = if first <= middle_last {
                    first
                } else {
                    middle_last
                };
                Self::push_part(&mut projections, 0, first, 0, middle_first);
                Self::push_part(&mut projections, first, last, middle_first, middle_last);
                Self::push_part(&mut projections, last, source_length, middle_last, target_length);
            },
        }
        projections
    }
}

/// The total over a list that is made of two is the sum of the two totals.
proof fn lemma_totals_append(a: Seq<SliceProjection>, b: Seq<SliceProjection>)
    ensures
        target_total(a + b) == target_total(a) + target_total(b),
        source_total(a + b) == source_total(a) + source_total(b),
    decreases b.len(),
{
    if b.len() == 0 {
        assert(a + b =~= a);
    } else {
        assert((a + b).drop_last() =~= a + b.drop_last());
        lemma_totals_append(a, b.drop_last());
    }
}

/// The totals of a part that may have been dropped.
proof fn lemma_totals_kept(projection: SliceProjection)
    ensures
        target_total(kept(projection)) == (if projection.is_drawn() {
            projection.target_end - projection.target_start
        } else {
            0
        }),
        source_total(kept(projection)) == (if projection.is_drawn() {
            projection.source_end - projection.source_start
        } else {
            0
        }),
{
    if projection.is_drawn() {
        assert(kept(projection).drop_last() =~= Seq::<SliceProjection>::empty());
        reveal_with_fuel(target_total, 2);
        reveal_with_fuel(source_total, 2);
    }
}

/// The projections of a slice take up the whole target and the whole source,
/// each counted once, on every axis on which no part is dropped that is empty
/// on one side only.
pub proof fn lemma_projections_conserve(slice: Slice, source_length: u32, target_length: u32)
    requires
        slice.fits(source_length as int),
        slice.balanced(source_length as int, target_length as int),
    ensures
        target_total(slice.divide(source_length as int, target_length as int)) == target_length,
        source_total(slice.divide(source_length as int, target_length as int)) == source_length,
{
    let parts = slice.parts(source_length as int, target_length as int);
    assert(parts.len() == 2 || parts.len() == 3);
    assert(parts[0].source_start < parts[0].source_end <==> parts[0].target_start
        < parts[0].target_end);
    assert(parts[1].source_start < parts[1].source_end <==> parts[1].target_start
        < parts[1].target_end);
    lemma_totals_kept(parts[0]);
    lemma_totals_kept(parts[1]);
    lemma_totals_append(kept(parts[0]), kept(parts[1]));
    if parts.len() == 3 {
        assert(parts[2].source_start < parts[2].source_end <==> parts[2].target_start
            < parts[2].target_end);
        lemma_totals_kept(parts[2]);
        lemma_totals_append(kept(parts[0]) + kept(parts[1]), kept(parts[2]));
    }
}

/// When no part of a ternary slice is dropped half empty, told by the numbers: a
/// first part needs room before the last one, the middle part has room exactly
/// when it has pixels, and a last part needs a target that is not empty.
pub proof fn lemma_ternary_balanced(
    split_first: u32,
    split_last: u32,
    source_length: u32,
    target_length: u32,
)
    requires
        split_first <= split_last <= source_length,
    ensures
        (Slice::Ternary { split_first, split_last }).balanced(
            source_length as int,
            target_length as int,
        ) <==> {
            let fixed_last = source_length - split_last;
            &&& split_first > 0 ==> target_length > fixed_last
            &&& split_first < split_last <==> target_length - fixed_last > split_first
            &&& fixed_last > 0 ==> target_length > 0
        },
{
    let slice = Slice::Ternary { split_first, split_last };
    let parts = slice.parts(source_length as int, target_length as int);
    if slice.balanced(source_length as int, target_length as int) {
        assert(parts[0].source_start < parts[0].source_end <==> parts[0].target_start
            < parts[0].target_end);
        assert(parts[1].source_start < parts[1].source_end <==> parts[1].target_start
            < parts[1].target_end);
        assert(parts[2].source_start < parts[2].source_end <==> parts[2].target_start
            < parts[2].target_end);
    }
}

impl SliceProjection {
    /// Whether the projection has pixels in the source and room in the target.
    pub open spec fn is_drawn(self) -> bool {
        self.target_start < self.target_end && self.source_start < self.source_end
    }

    /// The rectangle that is taken from the source, when this projection cuts
    /// the horizontal axis and `vertical` the other.
    pub open spec fn source_rect(self, vertical: SliceProjection) -> Rect {
        Rect {
            x: i32_or_zero(self.source_start as int),
            y: i32_or_zero(vertical.source_start as int),
            size: Size {
                width: (self.source_end - self.source_start) as u32,
                height: (vertical.source_end - vertical.source_start) as u32,
            },
        }
    }

    /// The rectangle that is filled in the target, relative to where the
    /// drawing starts, when this projection cuts the horizontal axis and
    /// `vertical` the other.
    pub open spec fn target_rect(self, vertical: SliceProjection) -> Rect {
        Rect {
            x: i32_or_zero(self.target_start as int),
            y: i32_or_zero(vertical.target_start as int),
            size: Size {
                width: (self.target_end - self.target_start) as u32,
                height: (vertical.target_end - vertical.target_start) as u32,
            },
        }
    }

    /// The projection of an axis that is not cut: the same `length` on both sides.
    pub open spec fn whole(length: u32) -> SliceProjection {
        SliceProjection { source_start: 0, source_end: length, target_start: 0, target_end: length }
    }

    /// Construct a new projection.
    pub fn new(source_start: u32, source_end: u32, target_start: u32, target_end: u32) -> (r: Self)
        ensures
            r.source_start == source_start,
            r.source_end == source_end,
            r.target_start == target_start,
            r.target_end == target_end,
    {
        Self { source_start, source_end, target_start, target_end }
    }

    /// Amount of pixels of the range.
    pub fn source_amount(&self) -> (r: u32)
        requires
            self.source_start <= self.source_end,
        ensures
            r == self.source_end - self.source_start,
    {
        self.source_end - self.source_start
    }

    /// Amount of pixels of the range.
    pub fn target_amount(&self) -> (r: u32)
        requires
            self.target_start <= self.target_end,
        ensures
            r == self.target_end - self.target_start,
    {
        self.target_end - self.target_start
    }

    /// Create a `(source, target)` rectangle tuple with a static Y axis.
    pub fn into_sub_rects_static_y(self, y_size: u32) -> (r: (Rect, Rect))
        requires
            self.source_start <= self.source_end,
            self.target_start <= self.target_end,
        ensures
            r.0 == self.source_rect(SliceProjection::whole(y_size)),
            r.1 == self.target_rect(SliceProjection::whole(y_size)),
    {
        let source = Rect::new(
            self.source_start as i64,
            0,
            Size::new(self.source_amount() as i64, y_size as i64),
        );
        let target = Rect::new(
            self.target_start as i64,
            0,
            Size::new(self.target_amount() as i64, y_size as i64),
        );

        (source, target)
    }

    /// Create a `(source, target)` rectangle tuple with a static X axis.
    pub fn into_sub_rects_static_x(self, x_size: u32) -> (r: (Rect, Rect))
        requires
            self.source_start <= self.source_end,
            self.target_start <= self.target_end,
        ensures
            r.0 == SliceProjection::whole(x_size).source_rect(self),
            r.1 == SliceProjection::whole(x_size).target_rect(self),
    {
        let source = Rect::new(
            0,
            self.source_start as i64,
            Size::new(x_size as i64, self.source_amount() as i64),
        );
        let target = Rect::new(
            0,
            self.target_start as i64,
            Size::new(x_size as i64, self.target_amount() as i64),
        );

        (source, target)
    }

    /// Create a `(source, target)` rectangle tuple from horizontal and vertical projections.
    pub fn combine_into_sub_rects(horizontal: &SliceProjection, vertical: &SliceProjection) -> (r:
        (Rect, Rect))
        requires
            horizontal.source_start <= horizontal.source_end,
            horizontal.target_start <= horizontal.target_end,
            vertical.source_start <= vertical.source_end,
            vertical.target_start <= vertical.target_end,
        ensures
            r.0 == horizontal.source_rect(*vertical),
            r.1 == horizontal.target_rect(*vertical),
    {
        let source = Rect::new(
            horizontal.source_start as i64,
            vertical.source_start as i64,
            Size::new(horizontal.source_amount() as i64, vertical.source_amount() as i64),
        );

        let target = Rect::new(
            horizontal.target_start as i64,
            vertical.target_start as i64,
            Size::new(horizontal.target_amount() as i64, vertical.target_amount() as i64),
        );

        (source, target)
    }
}

} // verus!
