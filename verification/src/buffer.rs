//! The buffer that holds an image in the form that is drawn fastest, and the
//! drawing itself.

use core::ops::Range;
use vstd::arithmetic::div_mod::lemma_fundamental_div_mod;
use vstd::prelude::*;

use crate::bytes::{
    decoded_pixels,
    decoded_size,
    encoded,
    is_encoding,
    push_word,
    read_word,
    word_at,
    words_encoded,
};
use crate::convert::to_usize;
use crate::error::Error;
use crate::geom::{at_least_zero, Rect, Size};
use crate::options::BlitOptions;
use crate::pixel::{binarize, binarized, composite, lemma_binarized_alpha};
use crate::raster::{
    draw_run,
    draw_tiled,
    lemma_index_pixel,
    lemma_index_row,
    lemma_pixel_index,
    lemma_row_in_buffer,
    lemma_tile_start,
    mask_contains,
    pixel_at,
    run_drawn,
    tiled_drawn,
};
use crate::slice::SliceProjection;
use crate::view::{intersection, overlaps, smaller, ImageView};

verus! {

/// Blit functions that can be called from multiple places.
pub trait Blit {
    /// Whether the source is in a state in which it can be drawn.
    spec fn ready(&self) -> bool;

    /// The destination after the source is drawn on it.
    spec fn drawn(&self, dst: Seq<u32>, dst_size: Size, options: BlitOptions) -> Seq<u32>;

    /// Draw the source input on the destination image.
    ///
    /// See [`BlitOptions`] for multiple ways of drawing the image.
    ///
    /// The pixels will be drawn to the destination buffer in RGBA format. The
    /// destination holds its rows one after the other, all `dst_size.height`
    /// of them.
    fn blit(&self, dst: &mut [u32], dst_size: Size, options: &BlitOptions)
        requires
            self.ready(),
            old(dst)@.len() == dst_size.area(),
        ensures
            final(dst)@ == self.drawn(old(dst)@, dst_size, *options),
    ;
}

/// Convert external image types to a specialized buffer optimized for blitting.
///
/// Can be used to create a custom implementation if you want different image or other formats.
pub trait ToBlitBuffer {
    /// Whether the image has a size that a buffer can be made for.
    spec fn convertible(&self) -> bool;

    /// Convert the image to a custom `BlitBuffer` type which is optimized for applying the blitting operations.
    ///
    /// It's assumed that the alpha channel in the resulting pixel is properly set.
    /// The alpha treshold is the offset point at which an alpha value will be used as either a transparent pixel or a colored one.
    fn to_blit_buffer_with_alpha(&self, alpha_treshold: u8) -> (r: BlitBuffer)
        requires
            self.convertible(),
        ensures
            r.wf(),
    ;

    /// Convert the image to a custom `BlitBuffer` type which is optimized for applying the blitting operations.
    ///
    /// Ignore the alpha channel if set and use only a single color for transparency.
    fn to_blit_buffer_with_mask_color(&self, mask_color: u32) -> (r: BlitBuffer)
        requires
            self.convertible(),
        ensures
            r.wf(),
    ;
}

/// The rectangle with its sides cut down to those of the area.
pub open spec fn capped(rect: Rect, area: Size) -> Rect {
    Rect {
        x: rect.x,
        y: rect.y,
        size: Size {
            width: smaller(rect.size.width as int, area.width as int) as u32,
            height: smaller(rect.size.height as int, area.height as int) as u32,
        },
    }
}

/// The first `count` pixels as they are stored in a buffer.
pub open spec fn stored(pixels: Seq<u32>, count: int, alpha_treshold: u8) -> Seq<u32> {
    Seq::new(count as nat, |i: int| binarized(pixels[i], alpha_treshold))
}

/// Every stored pixel is transparent or fully opaque: its highest 8 bits are
/// `0x00` or `0xFF`. It is transparent where the alpha channel of the pixel
/// it was made of is below the threshold.
pub proof fn lemma_stored_binary(pixels: Seq<u32>, count: int, alpha_treshold: u8)
    ensures
        forall|i: int|
            0 <= i < count ==> ((#[trigger] stored(pixels, count, alpha_treshold)[i]) >> 24u32
                == 0 || stored(pixels, count, alpha_treshold)[i] >> 24u32 == 0xFF) && (stored(
                pixels,
                count,
                alpha_treshold,
            )[i] == 0 <==> (pixels[i] >> 24u32) < alpha_treshold),
{
    assert forall|i: int| 0 <= i < count implies ((#[trigger] stored(
        pixels,
        count,
        alpha_treshold,
    )[i]) >> 24u32 == 0 || stored(pixels, count, alpha_treshold)[i] >> 24u32 == 0xFF) && (stored(
        pixels,
        count,
        alpha_treshold,
    )[i] == 0 <==> (pixels[i] >> 24u32) < alpha_treshold) by {
        lemma_binarized_alpha(pixels[i], alpha_treshold);
    }
}

/// The destination after the area of the size `area` at `(x, y)` is filled
/// with the part of the source that `sub_rect` selects.
///
/// The sub rectangle is cut down to what lies in the source. Nothing is drawn
/// where nothing is left of it. Where the area is bigger than what is left,
/// the part is repeated.
pub open spec fn area_drawn(
    dst: Seq<u32>,
    dst_size: Size,
    src: Seq<u32>,
    src_size: Size,
    x: int,
    y: int,
    area: Size,
    sub_rect: Rect,
    mask: Option<Rect>,
) -> Seq<u32> {
    if sub_rect.is_empty() || !overlaps(sub_rect, Rect::spanning(src_size)) {
        dst
    } else {
        tiled_drawn(
            dst,
            dst_size.width as int,
            src,
            src_size.width as int,
            x,
            y,
            area,
            intersection(sub_rect, Rect::spanning(src_size)),
            mask,
        )
    }
}

/// The `(source, target)` rectangles of the rows that a slice cuts a source
/// of the width into.
pub open spec fn rects_of_rows(width: u32, rows: Seq<SliceProjection>) -> Seq<(Rect, Rect)> {
    Seq::new(
        rows.len(),
        |i: int|
            (
                SliceProjection::whole(width).source_rect(rows[i]),
                SliceProjection::whole(width).target_rect(rows[i]),
            ),
    )
}

/// The `(source, target)` rectangles of the columns that a slice cuts a
/// source of the height into.
pub open spec fn rects_of_columns(columns: Seq<SliceProjection>, height: u32) -> Seq<(Rect, Rect)> {
    Seq::new(
        columns.len(),
        |i: int|
            (
                columns[i].source_rect(SliceProjection::whole(height)),
                columns[i].target_rect(SliceProjection::whole(height)),
            ),
    )
}

/// The `(source, target)` rectangles of every column in every row, row by row.
pub open spec fn rects_of_grid(columns: Seq<SliceProjection>, rows: Seq<SliceProjection>) -> Seq<
    (Rect, Rect),
> {
    Seq::new(
        rows.len() * columns.len(),
        |i: int|
            (
                columns[i % (columns.len() as int)].source_rect(rows[i / (columns.len() as int)]),
                columns[i % (columns.len() as int)].target_rect(rows[i / (columns.len() as int)]),
            ),
    )
}

/// The `(source, target)` rectangles that the slices of the options cut the
/// source and the target area into. There are none without a slice.
pub open spec fn slice_pieces(src_size: Size, options: BlitOptions, target_area: Size) -> Seq<
    (Rect, Rect),
> {
    match (options.vertical_slice, options.horizontal_slice) {
        (None, None) => Seq::empty(),
        (None, Some(horizontal)) => rects_of_rows(
            src_size.width,
            horizontal.divide(src_size.height as int, target_area.height as int),
        ),
        (Some(vertical), None) => rects_of_columns(
            vertical.divide(src_size.width as int, target_area.width as int),
            src_size.height,
        ),
        (Some(vertical), Some(horizontal)) => rects_of_grid(
            vertical.divide(src_size.width as int, target_area.width as int),
            horizontal.divide(src_size.height as int, target_area.height as int),
        ),
    }
}

/// The part of the source that is drawn for a piece: the source rectangle of
/// the piece, or the sub rectangle of the options shifted to its position.
pub open spec fn piece_sub_rect(options: BlitOptions, source: Rect) -> Rect {
    match options.sub_rect {
        Some(sub_rect) => sub_rect.shifted(source.x as int, source.y as int),
        None => source,
    }
}

/// The destination after one piece of a sliced source is drawn: its target
/// rectangle, moved to the position of the options, is filled with its part of
/// the source.
pub open spec fn piece_drawn(
    dst: Seq<u32>,
    dst_size: Size,
    src: Seq<u32>,
    src_size: Size,
    options: BlitOptions,
    piece: (Rect, Rect),
) -> Seq<u32> {
    area_drawn(
        dst,
        dst_size,
        src,
        src_size,
        options.x + piece.1.x,
        options.y + piece.1.y,
        piece.1.size,
        capped(piece_sub_rect(options, piece.0), piece.1.size),
        options.mask,
    )
}

/// The destination after the pieces are drawn one after the other.
pub open spec fn pieces_drawn(
    dst: Seq<u32>,
    dst_size: Size,
    src: Seq<u32>,
    src_size: Size,
    options: BlitOptions,
    pieces: Seq<(Rect, Rect)>,
) -> Seq<u32>
    decreases pieces.len(),
{
    if pieces.len() == 0 {
        dst
    } else {
        piece_drawn(
            pieces_drawn(dst, dst_size, src, src_size, options, pieces.drop_last()),
            dst_size,
            src,
            src_size,
            options,
            pieces.last(),
        )
    }
}

/// The destination after the source is drawn as the options say, slices aside.
pub open spec fn plain_drawn(
    dst: Seq<u32>,
    dst_size: Size,
    src: Seq<u32>,
    src_size: Size,
    options: BlitOptions,
) -> Seq<u32> {
    area_drawn(
        dst,
        dst_size,
        src,
        src_size,
        options.x as int,
        options.y as int,
        options.area_for(src_size),
        options.sub_rect_for(src_size),
        options.mask,
    )
}

/// The destination after the source is drawn as the options say.
///
/// Without slices, or where the slices leave no piece, the area of the
/// options is filled with the sub rectangle of the options. Else the pieces
/// are drawn that the slices cut the source and the area into.
///
/// A mask narrows the part of the destination that is drawn on. It does not
/// move what is drawn: tiles and pieces are laid out from the position of the
/// options, whatever the mask is.
pub open spec fn blit_drawn(
    dst: Seq<u32>,
    dst_size: Size,
    src: Seq<u32>,
    src_size: Size,
    options: BlitOptions,
) -> Seq<u32> {
    let pieces = slice_pieces(src_size, options, options.area_for(src_size));
    if pieces.len() == 0 {
        plain_drawn(dst, dst_size, src, src_size, options)
    } else {
        pieces_drawn(dst, dst_size, src, src_size, options, pieces)
    }
}

/// The pixels of a vector as a mutable slice, from `Vec::as_mut_slice`.
///
/// The slice starts out with the pixels of the vector, and the vector ends up
/// with what is written to the slice. A slice cannot grow or shrink, so it has
/// as many pixels in the end as it has at first.
#[verifier::external_body]
fn whole_slice_mut(data: &mut Vec<u32>) -> (r: &mut [u32])
    ensures
        r@ == old(data)@,
        final(data)@ == final(r)@,
        final(r)@.len() == r@.len(),
{
    data.as_mut_slice()
}

/// A data structure holding a color and a mask buffer to make blitting on a buffer real fast.
#[derive(Debug, Clone, PartialEq, Eq)]
pub struct BlitBuffer {
    /// Image size in pixels.
    size: Size,
    /// Vector of colors, the highest 8 bits are alpha and the remaining 24 bits the RGB color channels.
    data: Vec<u32>,
}

impl View for BlitBuffer {
    type V = Seq<u32>;

    /// The pixels of the image, row by row.
    closed spec fn view(&self) -> Seq<u32> {
        self.data@
    }
}

impl BlitBuffer {
    /// Whether the buffer has a width and a height above zero and holds one
    /// pixel for each position of its size, as every buffer does that this
    /// library made.
    pub closed spec fn wf(self) -> bool {
        &&& self.size.width > 0
        &&& self.size.height > 0
        &&& self.data@.len() == self.size.area()
    }

    /// Image size in pixels.
    pub closed spec fn dimensions(self) -> Size {
        self.size
    }

    /// A buffer in good state has as many pixels as its size tells, and one
    /// at least.
    pub proof fn lemma_pixel_count(self)
        requires
            self.wf(),
        ensures
            self.dimensions().width > 0,
            self.dimensions().height > 0,
            self@.len() == self.dimensions().area(),
    {
    }

    /// Create a instance from a buffer of RGBA data packed in a single `u32`.
    ///
    /// It's assumed that the alpha channel in the resulting pixel is properly set.
    /// The alpha treshold is the offset point at which an alpha value will be used as either a transparent pixel or a colored one.
    ///
    /// The height is the number of full rows that the data has, one at
    /// least. What is left of the data after the last full row is not taken.
    #[must_use]
    pub fn from_buffer(src: &[u32], width: i64, alpha_treshold: u8) -> (r: Self)
        requires
            0 < width <= u32::MAX,
            width <= src@.len(),
            (src@.len() as int) / (width as int) <= u32::MAX,
        ensures
            r.wf(),
            r.dimensions() == (Size {
                width: width as u32,
                height: ((src@.len() as int) / (width as int)) as u32,
            }),
            r@ == stored(src@, r.dimensions().area(), alpha_treshold),
            r.dimensions().area() <= src@.len(),
    {
        let length: usize = src.len();
        let width: usize = match to_usize(width) {
            Some(width) => width,
            None => 0,
        };
        // We can calculate the height from the total buffer
        let size = Size::from_len(length, width);
        proof {
            lemma_fundamental_div_mod(length as int, width as int);
            assert(0 <= (length as int) % (width as int) < width) by (nonlinear_arith)
                requires
                    0 < width,
                    0 <= length,
            ;
            assert((length as int) / (width as int) > 0) by (nonlinear_arith)
                requires
                    0 < width <= length,
                    length == width * ((length as int) / (width as int)) + (length as int) % (
                    width as int),
                    (length as int) % (width as int) < width,
            ;
        }
        let count: usize = size.pixels();

        // Create the data buffer, with every pixel either transparent or opaque
        let mut data: Vec<u32> = Vec::new();
        let mut i: usize = 0;
        while i < count
            invariant
                i <= count <= length,
                length == src@.len(),
                data@ == stored(src@, i as int, alpha_treshold),
            decreases count - i,
        {
            data.push(binarize(src[i], alpha_treshold));
            proof {
                assert(data@ =~= stored(src@, i + 1, alpha_treshold));
            }
            i = i + 1;
        }
        Self { size, data }
    }

    /// Create a instance from RGBA data packed in a single `u32`.
    ///
    /// It's assumed that the alpha channel in the resulting pixel is properly set.
    /// The alpha treshold is the offset point at which an alpha value will be used as either a transparent pixel or a colored one.
    ///
    /// The height is the number of full rows that the data has, one at
    /// least. What is left of the data after the last full row is not taken.
    #[must_use]
    pub fn from_iter(iter: Vec<u32>, width: i64, alpha_treshold: u8) -> (r: Self)
        requires
            0 < width <= u32::MAX,
            width <= iter@.len(),
            (iter@.len() as int) / (width as int) <= u32::MAX,
        ensures
            r.wf(),
            r.dimensions() == (Size {
                width: width as u32,
                height: ((iter@.len() as int) / (width as int)) as u32,
            }),
            r@ == stored(iter@, r.dimensions().area(), alpha_treshold),
            r.dimensions().area() <= iter@.len(),
    {
        Self::from_buffer(iter.as_slice(), width, alpha_treshold)
    }

    /// Width of the buffer in pixels.
    pub fn width(&self) -> (r: u32)
        ensures
            r == self.dimensions().width,
    {
        self.size.width
    }

    /// Height of the buffer in pixels.
    pub fn height(&self) -> (r: u32)
        ensures
            r == self.dimensions().height,
    {
        self.size.height
    }

    /// Size of the blitbuffer in pixels.
    pub fn size(&self) -> (r: Size)
        ensures
            r == self.dimensions(),
    {
        self.size
    }

    /// Get a reference to the pixel data.
    pub fn pixels(&self) -> (r: &[u32])
        ensures
            r@ == self@,
    {
        self.data.as_slice()
    }

    /// Get a mutable reference to the pixel data.
    ///
    /// The pixels can be changed through it, their number cannot.
    pub fn pixels_mut(&mut self) -> (r: &mut [u32])
        ensures
            r@ == old(self)@,
            final(self)@ == final(r)@,
            final(self).dimensions() == old(self).dimensions(),
            final(r)@.len() == r@.len(),
            old(self).wf() ==> final(self).wf(),
    {
        whole_slice_mut(&mut self.data)
    }

    /// The buffer as bytes, to store it: the width, the height and the
    /// pixels row by row, each as four bytes with the lowest first.
    pub fn to_bytes(&self) -> (r: Vec<u8>)
        requires
            self.wf(),
        ensures
            r@ == encoded(self.dimensions(), self@),
    {
        let mut bytes: Vec<u8> = Vec::new();
        let ghost words = seq![self.size.width, self.size.height] + self.data@;
        proof {
            reveal_with_fuel(words_encoded, 3);
            assert(words.take(2) =~= seq![self.size.width, self.size.height]);
            assert(seq![self.size.width, self.size.height].drop_last() =~= seq![self.size.width]);
            assert(seq![self.size.width].drop_last() =~= Seq::<u32>::empty());
        }
        push_word(&mut bytes, self.size.width);
        push_word(&mut bytes, self.size.height);
        proof {
            assert(bytes@ =~= words_encoded(words.take(2)));
        }
        let mut i: usize = 0;
        while i < self.data.len()
            invariant
                i <= self.data@.len(),
                words == seq![self.size.width, self.size.height] + self.data@,
                bytes@ == words_encoded(words.take(i + 2)),
            decreases self.data@.len() - i,
        {
            push_word(&mut bytes, self.data[i]);
            proof {
                assert(words.take(i + 3).drop_last() =~= words.take(i + 2));
            }
            i = i + 1;
        }
        proof {
            assert(words.take(i + 2) =~= words);
        }
        bytes
    }

    /// Restore a buffer from the bytes that it was stored as.
    ///
    /// Fails with [`Error::CorruptBuffer`] where the bytes do not have the
    /// layout of a stored buffer: a width and a height above zero, and as
    /// many pixels behind them as the two tell.
    pub fn from_bytes(bytes: &[u8]) -> (r: Result<Self, Error>)
        ensures
            match r {
                Ok(buffer) => is_encoding(bytes@) && buffer.wf() && buffer.dimensions()
                    == decoded_size(bytes@) && buffer@ == decoded_pixels(bytes@),
                Err(Error::CorruptBuffer) => !is_encoding(bytes@),
                Err(_) => false,
            },
    {
        let length: usize = bytes.len();
        if length < 8 {
            return Err(Error::CorruptBuffer);
        }
        let size = Size { width: read_word(bytes, 0), height: read_word(bytes, 1) };
        if size.width == 0 || size.height == 0 {
            return Err(Error::CorruptBuffer);
        }
        // The pixels have to fill the size, no more and no less

        let rest: usize = length - 8;
        proof {
            assert(size.width * size.height <= 0xFFFF_FFFF * 0xFFFF_FFFF) by (nonlinear_arith)
                requires
                    size.width <= 0xFFFF_FFFF,
                    size.height <= 0xFFFF_FFFF,
            ;
        }
        let pixels: u64 = size.width as u64 * size.height as u64;
        if rest % 4 != 0 || (rest / 4) as u64 != pixels {
            return Err(Error::CorruptBuffer);
        }
        let count: usize = rest / 4;
        let mut data: Vec<u32> = Vec::new();
        let mut i: usize = 0;
        while i < count
            invariant
                i <= count,
                length == bytes@.len(),
                length == 8 + 4 * count,
                data@.len() == i,
                forall|k: int| 0 <= k < i ==> data@[k] == word_at(bytes@, k + 2),
            decreases count - i,
        {
            data.push(read_word(bytes, i + 2));
            i = i + 1;
        }
        proof {
            assert(data@ =~= decoded_pixels(bytes@));
        }
        Ok(Self { size, data })
    }

    /// Divide the target area into given slices of rectangles to draw.
    ///
    /// A `(source, target)` rectangle tuple is returned.
    pub fn slice_projections(&self, options: &BlitOptions, target_area: Size) -> (r: Vec<
        (Rect, Rect),
    >)
        ensures
            r@ == slice_pieces(self.dimensions(), *options, target_area),
            forall|i: int| 0 <= i < r@.len() ==> (#[trigger] r@[i]).0.x >= 0 && r@[i].0.y >= 0,
    {
        let mut pieces: Vec<(Rect, Rect)> = Vec::new();
        match (options.vertical_slice, options.horizontal_slice) {
            // No slices, so no need to split it
            (None, None) => {},
            // Only a horizontal slice
            (None, Some(horizontal)) => {
                let rows = horizontal.divide_area_iter(self.size.height, target_area.height);
                let ghost all = rects_of_rows(self.size.width, rows@);
                let mut i: usize = 0;
                while i < rows.len()
                    invariant
                        i <= rows@.len(),
                        all == rects_of_rows(self.size.width, rows@),
                        forall|k: int|
                            0 <= k < rows@.len() ==> (#[trigger] rows@[k]).source_start
                                < rows@[k].source_end && rows@[k].target_start
                                < rows@[k].target_end,
                        pieces@ == all.take(i as int),
                    decreases rows@.len() - i,
                {
                    pieces.push(rows[i].into_sub_rects_static_x(self.size.width));
                    proof {
                        assert(pieces@ =~= all.take(i + 1));
                    }
                    i = i + 1;
                }
                proof {
                    assert(pieces@ =~= all);
                }
            },
            // Only a vertical slice
            (Some(vertical), None) => {
                let columns = vertical.divide_area_iter(self.size.width, target_area.width);
                let ghost all = rects_of_columns(columns@, self.size.height);
                let mut i: usize = 0;
                while i < columns.len()
                    invariant
                        i <= columns@.len(),
                        all == rects_of_columns(columns@, self.size.height),
                        forall|k: int|
                            0 <= k < columns@.len() ==> (#[trigger] columns@[k]).source_start
                                < columns@[k].source_end && columns@[k].target_start
                                < columns@[k].target_end,
                        pieces@ == all.take(i as int),
                    decreases columns@.len() - i,
                {
                    pieces.push(columns[i].into_sub_rects_static_y(self.size.height));
                    proof {
                        assert(pieces@ =~= all.take(i + 1));
                    }
                    i = i + 1;
                }
                proof {
                    assert(pieces@ =~= all);
                }
            },
            // The buffer is split both horizontally and vertically
            (Some(vertical), Some(horizontal)) => {
                let columns = vertical.divide_area_iter(self.size.width, target_area.width);
                let rows = horizontal.divide_area_iter(self.size.height, target_area.height);
                let ghost all = rects_of_grid(columns@, rows@);
                let ghost width = columns@.len() as int;

                // Return a cartesian product of all ranges
                let mut row: usize = 0;
                while row < rows.len()
                    invariant
                        row <= rows@.len(),
                        width == columns@.len(),
                        columns@.len() <= 3,
                        rows@.len() <= 3,
                        all == rects_of_grid(columns@, rows@),
                        forall|k: int|
                            0 <= k < columns@.len() ==> (#[trigger] columns@[k]).source_start
                                < columns@[k].source_end && columns@[k].target_start
                                < columns@[k].target_end,
                        forall|k: int|
                            0 <= k < rows@.len() ==> (#[trigger] rows@[k]).source_start
                                < rows@[k].source_end && rows@[k].target_start
                                < rows@[k].target_end,
                        pieces@ == all.take(row * width),
                    decreases rows@.len() - row,
                {
                    let mut column: usize = 0;
                    while column < columns.len()
                        invariant
                            row < rows@.len(),
                            column <= columns@.len(),
                            width == columns@.len(),
                            columns@.len() <= 3,
                            rows@.len() <= 3,
                            all == rects_of_grid(columns@, rows@),
                            forall|k: int|
                                0 <= k < columns@.len() ==> (#[trigger] columns@[k]).source_start
                                    < columns@[k].source_end && columns@[k].target_start
                                    < columns@[k].target_end,
                            forall|k: int|
                                0 <= k < rows@.len() ==> (#[trigger] rows@[k]).source_start
                                    < rows@[k].source_end && rows@[k].target_start
                                    < rows@[k].target_end,
                            pieces@ == all.take(row * width + column),
                        decreases columns@.len() - column,
                    {
                        pieces.push(
                            SliceProjection::combine_into_sub_rects(&columns[column], &rows[row]),
                        );
                        proof {
                            lemma_pixel_index(row as int, column as int, width);
                            assert(row * width + column < rows@.len() * width) by (nonlinear_arith)
                                requires
                                    0 <= row < rows@.len(),
                                    0 <= column < width,
                            ;
                            assert(pieces@ =~= all.take(row * width + column + 1));
                        }
                        column = column + 1;
                    }
                    proof {
                        assert((row + 1) * width == row * width + width) by (nonlinear_arith);
                    }
                    row = row + 1;
                }
                proof {
                    assert(pieces@ =~= all);
                }
            },
        }
        pieces
    }

    /// Fill the area of the size `area` at `(x, y)` of the destination with
    /// the part of the buffer that `sub_rect` selects.
    fn blit_area(
        &self,
        dst: &mut [u32],
        dst_size: Size,
        x: i64,
        y: i64,
        area: Size,
        sub_rect: Rect,
        mask: Option<Rect>,
    )
        requires
            self.wf(),
            old(dst)@.len() == dst_size.area(),
            -0x1_0000_0000 <= x <= 0x1_0000_0000,
            -0x1_0000_0000 <= y <= 0x1_0000_0000,
        ensures
            final(dst)@ == area_drawn(
                old(dst)@,
                dst_size,
                self@,
                self.dimensions(),
                x as int,
                y as int,
                area,
                sub_rect,
                mask,
            ),
    {
        // Convert our source to a view
        let src_view = ImageView::full(self.size);

        // Another view based on the subrectangle
        let sub_rect_view = match src_view.sub(sub_rect) {
            Some(sub_rect_view) => sub_rect_view,
            None => {
                return ;
            },
        };

        draw_tiled(
            dst,
            dst_size,
            self.data.as_slice(),
            self.size,
            x,
            y,
            area,
            sub_rect_view.as_sub_rect(),
            mask,
        );
    }

    /// Blit the buffer as the options say, slices aside.
    pub fn blit_slice(&self, dst: &mut [u32], dst_size: Size, options: &BlitOptions)
        requires
            self.wf(),
            old(dst)@.len() == dst_size.area(),
        ensures
            final(dst)@ == plain_drawn(old(dst)@, dst_size, self@, self.dimensions(), *options),
    {
        // If the size of the image is the same as our buffer and nothing selects a part of it we can completely blit all pixels
        if options.x == 0 && options.y == 0 && dst_size == self.size && options.area.is_none()
            && options.sub_rect.is_none() && options.mask.is_none() {
            let length: usize = dst.len();
            let pixels: usize = dst_size.pixels();
            proof {
                lemma_whole_drawn(old(dst)@, self@, dst_size, *options);
            }
            self.blit_horizontal(dst, 0..pixels, 0..pixels);

            return ;
        }
        // Find the area on the destination, it draws nothing when none of it can be seen

        let area = options.area(self.size);
        let dst_view = ImageView::full(dst_size);
        if dst_view.sub(Rect { x: options.x, y: options.y, size: area }).is_none() {
            proof {
                lemma_unseen_area(
                    old(dst)@,
                    dst_size,
                    self@,
                    self.size,
                    options.x as int,
                    options.y as int,
                    area,
                    options.sub_rect_for(self.size),
                    options.mask,
                );
            }
            return ;
        }
        self.blit_area(
            dst,
            dst_size,
            options.x as i64,
            options.y as i64,
            area,
            options.sub_rect(self.size),
            options.mask,
        );
    }

    /// Blit one piece of the sliced buffer.
    fn blit_piece(
        &self,
        dst: &mut [u32],
        dst_size: Size,
        options: &BlitOptions,
        source: Rect,
        target: Rect,
    )
        requires
            self.wf(),
            old(dst)@.len() == dst_size.area(),
            source.x >= 0,
            source.y >= 0,
        ensures
            final(dst)@ == piece_drawn(
                old(dst)@,
                dst_size,
                self@,
                self.dimensions(),
                *options,
                (source, target),
            ),
    {
        // Move the already existing subrectangle if applicable
        let sub_rect = match options.sub_rect {
            Some(sub_rect) => sub_rect.shift(source.x as i64, source.y as i64).1,
            None => source,
        };
        // The sub rectangle is never allowed to be bigger than the area
        let sub_rect = Rect { x: sub_rect.x, y: sub_rect.y, size: sub_rect.size.min(target.size) };

        // Move the position to which part of the slice we need to draw
        self.blit_area(
            dst,
            dst_size,
            options.x as i64 + target.x as i64,
            options.y as i64 + target.y as i64,
            target.size,
            sub_rect,
            options.mask,
        );
    }

    /// Blit a horizontal strip: the pixels of the buffer in `blit_index` over
    /// the pixels of the destination in `dst_index`, as many as the shorter
    /// of the two ranges has.
    pub fn blit_horizontal(&self, dst: &mut [u32], dst_index: Range<usize>, blit_index: Range<usize>)
        requires
            dst_index.start <= dst_index.end <= old(dst)@.len(),
            blit_index.start <= blit_index.end <= self@.len(),
        ensures
            final(dst)@ == run_drawn(
                old(dst)@,
                self@,
                dst_index.start as int,
                blit_index.start as int,
                smaller(dst_index.end - dst_index.start, blit_index.end - blit_index.start),
            ),
    {
        let dst_length: usize = dst_index.end - dst_index.start;
        let blit_length: usize = blit_index.end - blit_index.start;
        let length: usize = if dst_length <= blit_length {
            dst_length
        } else {
            blit_length
        };
        draw_run(dst, self.data.as_slice(), dst_index.start, blit_index.start, length);
    }

    /// Blit a single pixel.
    ///
    /// The main logic of calculating the resulting color that needs to be drawn.
    pub fn blit_pixel(dst_pixel: u32, src_pixel: u32) -> (r: u32)
        ensures
            r == composite(dst_pixel, src_pixel),
    {
        // Set the pixel from the blit image if the mask value is set
        if (src_pixel >> 24u32) > 0 {
            // Pixel from the blit buffer is not masked, use it
            src_pixel
        } else {
            // Pixel from the blit buffer is masked, keep the color that is there
            dst_pixel
        }
    }
}

impl Blit for BlitBuffer {
    open spec fn ready(&self) -> bool {
        self.wf()
    }

    open spec fn drawn(&self, dst: Seq<u32>, dst_size: Size, options: BlitOptions) -> Seq<u32> {
        blit_drawn(dst, dst_size, self@, self.dimensions(), options)
    }

    fn blit(&self, dst: &mut [u32], dst_size: Size, options: &BlitOptions) {
        // Get the total area we need to draw the slices in
        let area = options.area(self.size);

        // Which slices do we need to draw if any
        let slice_projections = self.slice_projections(options, area);

        if slice_projections.len() == 0 {
            // Render without projections
            self.blit_slice(dst, dst_size, options);
        } else {
            // Loop over each slice
            let mut i: usize = 0;
            while i < slice_projections.len()
                invariant
                    i <= slice_projections@.len(),
                    self.wf(),
                    dst@.len() == dst_size.area(),
                    forall|k: int|
                        0 <= k < slice_projections@.len() ==> (
                        #[trigger] slice_projections@[k]).0.x >= 0 && slice_projections@[k].0.y
                            >= 0,
                    dst@ == pieces_drawn(
                        old(dst)@,
                        dst_size,
                        self@,
                        self.dimensions(),
                        *options,
                        slice_projections@.take(i as int),
                    ),
                decreases slice_projections@.len() - i,
            {
                let (source, target) = slice_projections[i];
                proof {
                    assert(slice_projections@.take(i + 1).drop_last() =~= slice_projections@.take(
                        i as int,
                    ));
                }
                self.blit_piece(dst, dst_size, options, source, target);
                i = i + 1;
            }
            proof {
                assert(slice_projections@.take(i as int) =~= slice_projections@);
            }
        }
    }
}

/// Drawing a source at the left top corner of a destination of its own
/// size, with no other option set, draws pixel on pixel: each pixel of the
/// destination is composed with the pixel of the source at its index, so a
/// transparent pixel of the source leaves the destination as it is.
pub proof fn lemma_exact_fit(dst: Seq<u32>, src: Seq<u32>, size: Size)
    requires
        dst.len() == size.area(),
        src.len() == size.area(),
    ensures
        blit_drawn(dst, size, src, size, BlitOptions::at(0, 0)).len() == dst.len(),
        forall|i: int|
            0 <= i < dst.len() ==> (#[trigger] blit_drawn(
                dst,
                size,
                src,
                size,
                BlitOptions::at(0, 0),
            )[i]) == composite(dst[i], src[i]),
        forall|i: int|
            0 <= i < dst.len() && src[i] >> 24u32 == 0 ==> (#[trigger] blit_drawn(
                dst,
                size,
                src,
                size,
                BlitOptions::at(0, 0),
            )[i]) == dst[i],
{
    lemma_whole_drawn(dst, src, size, BlitOptions::at(0, 0));
    assert(slice_pieces(size, BlitOptions::at(0, 0), size).len() == 0);
}

/// Drawing with a position and no other option set shows the part of the
/// source that lies in the destination, wherever the position is, left of or
/// above the destination too.
///
/// A pixel of the destination changes only where the source, put at the
/// position, lies over it. What is left of a source that starts before the
/// destination is shown from the first pixel of the source on.
pub proof fn lemma_position_clipped(
    dst: Seq<u32>,
    dst_size: Size,
    src: Seq<u32>,
    src_size: Size,
    x: i32,
    y: i32,
)
    requires
        dst.len() == dst_size.area(),
    ensures
        blit_drawn(dst, dst_size, src, src_size, BlitOptions::at(x, y)).len() == dst.len(),
        forall|px: int, py: int|
            0 <= px < dst_size.width && 0 <= py < dst_size.height ==> (#[trigger] pixel_at(
                blit_drawn(dst, dst_size, src, src_size, BlitOptions::at(x, y)),
                dst_size.width as int,
                px,
                py,
            )) == (if x <= px < x + src_size.width && y <= py < y + src_size.height {
                composite(
                    pixel_at(dst, dst_size.width as int, px, py),
                    pixel_at(
                        src,
                        src_size.width as int,
                        px - at_least_zero(x as int),
                        py - at_least_zero(y as int),
                    ),
                )
            } else {
                pixel_at(dst, dst_size.width as int, px, py)
            }),
{
    let options = BlitOptions::at(x, y);
    let drawn = blit_drawn(dst, dst_size, src, src_size, options);
    let whole = Rect::spanning(src_size);
    assert(slice_pieces(src_size, options, src_size).len() == 0);
    assert forall|px: int, py: int|
        0 <= px < dst_size.width && 0 <= py < dst_size.height implies (#[trigger] pixel_at(
        drawn,
        dst_size.width as int,
        px,
        py,
    )) == (if x <= px < x + src_size.width && y <= py < y + src_size.height {
        composite(
            pixel_at(dst, dst_size.width as int, px, py),
            pixel_at(
                src,
                src_size.width as int,
                px - at_least_zero(x as int),
                py - at_least_zero(y as int),
            ),
        )
    } else {
        pixel_at(dst, dst_size.width as int, px, py)
    }) by {
        lemma_pixel_index(py, px, dst_size.width as int);
        lemma_row_in_buffer(py, px, 1, dst_size.width as int, dst_size.height as int);
        if !whole.is_empty() {
            assert(intersection(whole, whole) == whole);
            if x <= px < x + src_size.width && y <= py < y + src_size.height {
                lemma_tile_start(px, x as int, src_size.width as int, 0);
                lemma_tile_start(py, y as int, src_size.height as int, 0);
            }
        }
    }
}

/// Whatever the options are, drawing without slices changes no pixel
/// outside of the area at the position, and none outside of the mask.
pub proof fn lemma_drawn_inside_area(
    dst: Seq<u32>,
    dst_size: Size,
    src: Seq<u32>,
    src_size: Size,
    options: BlitOptions,
)
    requires
        dst.len() == dst_size.area(),
    ensures
        plain_drawn(dst, dst_size, src, src_size, options).len() == dst.len(),
        forall|px: int, py: int|
            0 <= px < dst_size.width && 0 <= py < dst_size.height && !((Rect {
                x: options.x,
                y: options.y,
                size: options.area_for(src_size),
            }).contains(px, py) && mask_contains(options.mask, px, py)) ==> (#[trigger] pixel_at(
                plain_drawn(dst, dst_size, src, src_size, options),
                dst_size.width as int,
                px,
                py,
            )) == pixel_at(dst, dst_size.width as int, px, py),
{
    let drawn = plain_drawn(dst, dst_size, src, src_size, options);
    assert forall|px: int, py: int|
        0 <= px < dst_size.width && 0 <= py < dst_size.height && !((Rect {
            x: options.x,
            y: options.y,
            size: options.area_for(src_size),
        }).contains(px, py) && mask_contains(options.mask, px, py)) implies (#[trigger] pixel_at(
        drawn,
        dst_size.width as int,
        px,
        py,
    )) == pixel_at(dst, dst_size.width as int, px, py) by {
        lemma_pixel_index(py, px, dst_size.width as int);
        lemma_row_in_buffer(py, px, 1, dst_size.width as int, dst_size.height as int);
    }
}

/// A source that is drawn at the left top corner of a destination of its
/// own size, with nothing else set, is drawn pixel on pixel.
proof fn lemma_whole_drawn(dst: Seq<u32>, src: Seq<u32>, size: Size, options: BlitOptions)
    requires
        dst.len() == size.area(),
        src.len() == size.area(),
        options.x == 0,
        options.y == 0,
        options.area.is_none(),
        options.sub_rect.is_none(),
        options.mask.is_none(),
    ensures
        run_drawn(dst, src, 0, 0, size.area()) == plain_drawn(dst, size, src, size, options),
{
    let whole = Rect::spanning(size);
    let left = run_drawn(dst, src, 0, 0, size.area());
    let right = plain_drawn(dst, size, src, size, options);
    if whole.is_empty() {
        assert(size.width * size.height == 0) by (nonlinear_arith)
            requires
                size.width == 0 || size.height == 0,
        ;
        assert(left =~= right);
    } else {
        assert(intersection(whole, whole) == whole);
        assert forall|i: int| 0 <= i < dst.len() implies left[i] == right[i] by {
            lemma_index_row(i, size.width as int, size.height as int);
            lemma_index_pixel(i, size.width as int);
            lemma_tile_start(i % (size.width as int), 0, size.width as int, 0);
            lemma_tile_start(i / (size.width as int), 0, size.height as int, 0);
        }
        assert(left =~= right);
    }
}

/// Filling an area of which no pixel lies in the destination changes nothing.
proof fn lemma_unseen_area(
    dst: Seq<u32>,
    dst_size: Size,
    src: Seq<u32>,
    src_size: Size,
    x: int,
    y: int,
    area: Size,
    sub_rect: Rect,
    mask: Option<Rect>,
)
    requires
        dst.len() == dst_size.area(),
        i32::MIN <= x <= i32::MAX,
        i32::MIN <= y <= i32::MAX,
        area.width == 0 || area.height == 0 || !overlaps(
            Rect { x: x as i32, y: y as i32, size: area },
            Rect::spanning(dst_size),
        ),
    ensures
        area_drawn(dst, dst_size, src, src_size, x, y, area, sub_rect, mask) == dst,
{
    let drawn = area_drawn(dst, dst_size, src, src_size, x, y, area, sub_rect, mask);
    assert forall|i: int| 0 <= i < dst.len() implies drawn[i] == dst[i] by {
        lemma_index_row(i, dst_size.width as int, dst_size.height as int);
    }
    assert(drawn =~= dst);
}

} // verus!
