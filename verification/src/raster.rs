//! Drawing on flat pixel buffers: what each operation leaves in the
//! destination, and the loops that carry it out.
//!
//! A buffer holds its pixels row by row, so the pixel at column `px` and row
//! `py` of a buffer that is `width` pixels wide has the index
//! `py * width + px`.

use vstd::arithmetic::div_mod::{
    lemma_fundamental_div_mod,
    lemma_fundamental_div_mod_converse,
    lemma_mod_bound,
};
use vstd::prelude::*;

use crate::buffer::BlitBuffer;
use crate::geom::{at_least_zero, Rect, Size};
use crate::pixel::composite;
use crate::view::smaller;

verus! {

/// The pixel at column `px` and row `py` of a buffer that is `width` wide.
pub open spec fn pixel_at(buffer: Seq<u32>, width: int, px: int, py: int) -> u32 {
    buffer[py * width + px]
}

/// The destination after `length` pixels of the source from `src_start` on
/// are drawn over its pixels from `dst_start` on.
pub open spec fn run_drawn(
    dst: Seq<u32>,
    src: Seq<u32>,
    dst_start: int,
    src_start: int,
    length: int,
) -> Seq<u32> {
    Seq::new(
        dst.len(),
        |i: int|
            if dst_start <= i < dst_start + length {
                composite(dst[i], src[src_start + i - dst_start])
            } else {
                dst[i]
            },
    )
}

/// The destination after a rectangle of the source is drawn over it: `width`
/// by `height` pixels, taken from `(src_x, src_y)` and put at `(dst_x, dst_y)`.
pub open spec fn rect_drawn(
    dst: Seq<u32>,
    dst_width: int,
    src: Seq<u32>,
    src_width: int,
    dst_x: int,
    dst_y: int,
    src_x: int,
    src_y: int,
    width: int,
    height: int,
) -> Seq<u32> {
    Seq::new(
        dst.len(),
        |i: int|
            {
                let px = i % dst_width;
                let py = i / dst_width;
                if dst_x <= px < dst_x + width && dst_y <= py < dst_y + height {
                    composite(dst[i], src[(src_y + py - dst_y) * src_width + src_x + px - dst_x])
                } else {
                    dst[i]
                }
            },
    )
}

/// The index of a pixel of a row lies in that row, and tells its column.
pub proof fn lemma_pixel_index(row: int, column: int, width: int)
    requires
        0 <= column < width,
    ensures
        (row * width + column) / width == row,
        (row * width + column) % width == column,
{
    lemma_fundamental_div_mod_converse(row * width + column, width, row, column);
}

/// An index is made of its row and its column.
pub proof fn lemma_index_pixel(index: int, width: int)
    requires
        0 < width,
    ensures
        index == (index / width) * width + index % width,
        0 <= index % width < width,
{
    lemma_fundamental_div_mod(index, width);
    lemma_mod_bound(index, width);
    assert(width * (index / width) == (index / width) * width) by (nonlinear_arith);
}

/// An index of a buffer lies in one of its rows.
pub proof fn lemma_index_row(index: int, width: int, height: int)
    requires
        0 <= index < width * height,
        0 <= width,
    ensures
        0 < width,
        0 <= index / width < height,
        0 <= index % width < width,
{
    if width == 0 {
        assert(width * height == 0) by (nonlinear_arith)
            requires
                width == 0,
        ;
    }
    lemma_index_pixel(index, width);
    let row = index / width;
    if row >= height {
        assert(row * width >= height * width) by (nonlinear_arith)
            requires
                row >= height,
                width > 0,
        ;
        assert(height * width == width * height) by (nonlinear_arith);
    }
    if row < 0 {
        assert(row * width <= -width) by (nonlinear_arith)
            requires
                row <= -1,
                width > 0,
        ;
    }
}

/// A rectangle inside a buffer has its last pixel inside the buffer.
pub proof fn lemma_row_in_buffer(row: int, column: int, length: int, width: int, height: int)
    requires
        0 <= row < height,
        0 <= column,
        0 <= length,
        column + length <= width,
    ensures
        0 <= row * width,
        row * width + column + length <= width * height,
{
    assert(0 <= row * width && row * width + width <= width * height) by (nonlinear_arith)
        requires
            0 <= row < height,
            0 <= width,
    ;
}

/// Draw a run of pixels: `length` pixels of `src` from `src_start` on, over
/// the pixels of `dst` from `dst_start` on.
pub fn draw_run(dst: &mut [u32], src: &[u32], dst_start: usize, src_start: usize, length: usize)
    requires
        dst_start + length <= old(dst)@.len(),
        src_start + length <= src@.len(),
    ensures
        final(dst)@ == run_drawn(old(dst)@, src@, dst_start as int, src_start as int, length as int),
{
    let dst_length: usize = dst.len();
    let src_length: usize = src.len();
    let mut i: usize = 0;
    while i < length
        invariant
            i <= length,
            dst_start + length <= dst_length,
            src_start + length <= src_length,
            dst_length == dst@.len(),
            src_length == src@.len(),
            dst@.len() == old(dst)@.len(),
            dst@ == run_drawn(old(dst)@, src@, dst_start as int, src_start as int, i as int),
        decreases length - i,
    {
        let ghost before = dst@;
        let pixel: u32 = BlitBuffer::blit_pixel(dst[dst_start + i], src[src_start + i]);
        dst[dst_start + i] = pixel;
        proof {
            assert(dst@ =~= run_drawn(
                old(dst)@,
                src@,
                dst_start as int,
                src_start as int,
                i + 1,
            ));
        }
        i = i + 1;
    }
}

/// Drawing one more row of a rectangle is drawing a run.
proof fn lemma_rect_row(
    dst: Seq<u32>,
    dst_width: int,
    dst_height: int,
    src: Seq<u32>,
    src_width: int,
    dst_x: int,
    dst_y: int,
    src_x: int,
    src_y: int,
    width: int,
    rows: int,
)
    requires
        dst.len() == dst_width * dst_height,
        0 <= dst_x,
        0 <= width,
        dst_x + width <= dst_width,
        0 <= dst_y,
        0 <= rows,
        dst_y + rows < dst_height,
    ensures
        run_drawn(
            rect_drawn(dst, dst_width, src, src_width, dst_x, dst_y, src_x, src_y, width, rows),
            src,
            (dst_y + rows) * dst_width + dst_x,
            (src_y + rows) * src_width + src_x,
            width,
        ) == rect_drawn(
            dst,
            dst_width,
            src,
            src_width,
            dst_x,
            dst_y,
            src_x,
            src_y,
            width,
            rows + 1,
        ),
{
    let before = rect_drawn(
        dst,
        dst_width,
        src,
        src_width,
        dst_x,
        dst_y,
        src_x,
        src_y,
        width,
        rows,
    );
    let start = (dst_y + rows) * dst_width + dst_x;
    let drawn = run_drawn(before, src, start, (src_y + rows) * src_width + src_x, width);
    let after = rect_drawn(
        dst,
        dst_width,
        src,
        src_width,
        dst_x,
        dst_y,
        src_x,
        src_y,
        width,
        rows + 1,
    );
    assert forall|i: int| 0 <= i < dst.len() implies drawn[i] == after[i] by {
        lemma_index_row(i, dst_width, dst_height);
        lemma_index_pixel(i, dst_width);
        if start <= i < start + width {
            lemma_pixel_index(dst_y + rows, i - (dst_y + rows) * dst_width, dst_width);
        } else if i / dst_width == dst_y + rows {
            assert(i == (dst_y + rows) * dst_width + i % dst_width);
        }
    }
    assert(drawn =~= after);
}

/// Draw a rectangle of the source over the destination: `width` by `height`
/// pixels, taken from `(src_x, src_y)` and put at `(dst_x, dst_y)`. The
/// rectangle has to lie inside both buffers.
pub fn draw_rect(
    dst: &mut [u32],
    dst_size: Size,
    src: &[u32],
    src_size: Size,
    dst_x: u32,
    dst_y: u32,
    src_x: u32,
    src_y: u32,
    width: u32,
    height: u32,
)
    requires
        old(dst)@.len() == dst_size.area(),
        src@.len() == src_size.area(),
        dst_x + width <= dst_size.width,
        dst_y + height <= dst_size.height,
        src_x + width <= src_size.width,
        src_y + height <= src_size.height,
    ensures
        final(dst)@ == rect_drawn(
            old(dst)@,
            dst_size.width as int,
            src@,
            src_size.width as int,
            dst_x as int,
            dst_y as int,
            src_x as int,
            src_y as int,
            width as int,
            height as int,
        ),
{
    let dst_length: usize = dst.len();
    let src_length: usize = src.len();
    let mut row: u32 = 0;
    proof {
        assert(dst@ =~= rect_drawn(
            old(dst)@,
            dst_size.width as int,
            src@,
            src_size.width as int,
            dst_x as int,
            dst_y as int,
            src_x as int,
            src_y as int,
            width as int,
            0,
        ));
    }
    while row < height
        invariant
            row <= height,
            dst_length == dst@.len(),
            src_length == src@.len(),
            dst@.len() == dst_size.area(),
            src@.len() == src_size.area(),
            dst_x + width <= dst_size.width,
            dst_y + height <= dst_size.height,
            src_x + width <= src_size.width,
            src_y + height <= src_size.height,
            dst@ == rect_drawn(
                old(dst)@,
                dst_size.width as int,
                src@,
                src_size.width as int,
                dst_x as int,
                dst_y as int,
                src_x as int,
                src_y as int,
                width as int,
                row as int,
            ),
        decreases height - row,
    {
        proof {
            lemma_row_in_buffer(
                dst_y + row,
                dst_x as int,
                width as int,
                dst_size.width as int,
                dst_size.height as int,
            );
            lemma_row_in_buffer(
                src_y + row,
                src_x as int,
                width as int,
                src_size.width as int,
                src_size.height as int,
            );
            lemma_rect_row(
                old(dst)@,
                dst_size.width as int,
                dst_size.height as int,
                src@,
                src_size.width as int,
                dst_x as int,
                dst_y as int,
                src_x as int,
                src_y as int,
                width as int,
                row as int,
            );
        }
        let dst_start: usize = (dst_y + row) as usize * dst_size.width as usize + dst_x as usize;
        let src_start: usize = (src_y + row) as usize * src_size.width as usize + src_x as usize;
        draw_run(dst, src, dst_start, src_start, width as usize);
        row = row + 1;
    }
}

/// The number of the tile that covers the coordinate `p` of an area, when
/// tiles of the length `tile` are laid out from the start of the area on.
pub open spec fn tile_of(p: int, tile: int) -> int {
    p / tile
}

/// The number of tiles that it takes to cover a side of the length `length`.
/// The last one is cut where it would go on beyond the side.
pub open spec fn tile_count(length: int, tile: int) -> int {
    if length % tile == 0 {
        length / tile
    } else {
        length / tile + 1
    }
}

/// Whether the coordinate `p` of an area lies in the tile with the number
/// `index` on a side of the length `length`.
pub open spec fn in_tile(p: int, index: int, length: int, tile: int) -> bool {
    index * tile <= p < index * tile + tile && p < length
}

/// Whether the pixel at `(px, py)` of an area lies in the tile of the column
/// and the row.
pub open spec fn tile_contains(
    area: Size,
    tile: Size,
    column: int,
    row: int,
    px: int,
    py: int,
) -> bool {
    in_tile(px, column, area.width as int, tile.width as int) && in_tile(
        py,
        row,
        area.height as int,
        tile.height as int,
    )
}

/// Where the tile starts that covers the coordinate `p`, when tiles of the
/// length `tile` are laid out from `origin` on.
pub open spec fn tile_start(p: int, origin: int, tile: int) -> int {
    origin + tile_of(p - origin, tile) * tile
}

/// The tiles along one side cover the side without a gap and without
/// overlapping: every coordinate of the side lies in the tile that
/// [`tile_of`] names and in no other, and no tile is empty or has a
/// coordinate outside of the side.
pub proof fn lemma_tiles_cover_side(length: int, tile: int)
    requires
        0 <= length,
        0 < tile,
    ensures
        forall|p: int|
            0 <= p < length ==> 0 <= #[trigger] tile_of(p, tile) < tile_count(length, tile)
                && in_tile(p, tile_of(p, tile), length, tile),
        forall|p: int, index: int|
            0 <= index && #[trigger] in_tile(p, index, length, tile) ==> 0 <= p < length && index
                == tile_of(p, tile),
        forall|index: int|
            0 <= index < tile_count(length, tile) ==> #[trigger] in_tile(
                index * tile,
                index,
                length,
                tile,
            ),
{
    lemma_fundamental_div_mod(length, tile);
    lemma_mod_bound(length, tile);
    let whole = length / tile;
    assert(tile * whole == whole * tile) by (nonlinear_arith);
    assert forall|p: int| 0 <= p < length implies 0 <= #[trigger] tile_of(p, tile) < tile_count(
        length,
        tile,
    ) && in_tile(p, tile_of(p, tile), length, tile) by {
        lemma_index_pixel(p, tile);
        let index = p / tile;
        if index < 0 {
            assert(index * tile <= -tile) by (nonlinear_arith)
                requires
                    index <= -1,
                    tile > 0,
            ;
        }
        if index >= tile_count(length, tile) {
            assert(index * tile >= tile_count(length, tile) * tile) by (nonlinear_arith)
                requires
                    index >= tile_count(length, tile),
                    tile > 0,
            ;
            assert(tile_count(length, tile) * tile >= length) by (nonlinear_arith)
                requires
                    length == whole * tile + length % tile,
                    0 <= length % tile < tile,
                    tile_count(length, tile) == (if length % tile == 0 {
                        whole
                    } else {
                        whole + 1
                    }),
            ;
        }
    }
    assert forall|p: int, index: int| 0 <= index && #[trigger] in_tile(
        p,
        index,
        length,
        tile,
    ) implies 0 <= p < length && index == tile_of(p, tile) by {
        lemma_fundamental_div_mod_converse(p, tile, index, p - index * tile);
        assert(0 <= index * tile) by (nonlinear_arith)
            requires
                0 <= index,
                0 < tile,
        ;
    }
    assert forall|index: int| 0 <= index < tile_count(length, tile) implies #[trigger] in_tile(
        index * tile,
        index,
        length,
        tile,
    ) by {
        assert(index * tile < length) by (nonlinear_arith)
            requires
                0 <= index,
                length == whole * tile + length % tile,
                0 <= length % tile < tile,
                index < (if length % tile == 0 {
                    whole
                } else {
                    whole + 1
                }),
        ;
    }
}

/// The full tiles and the tiles that are cut at the right and at the bottom
/// cover an area without a gap and without overlapping: every pixel of the
/// area lies in one tile and in no other, and no tile is empty or has a pixel
/// outside of the area.
pub proof fn lemma_tiles_cover_area(area: Size, tile: Size)
    requires
        0 < tile.width,
        0 < tile.height,
    ensures
        forall|px: int, py: int|
            0 <= px < area.width && 0 <= py < area.height ==> #[trigger] tile_contains(
                area,
                tile,
                tile_of(px, tile.width as int),
                tile_of(py, tile.height as int),
                px,
                py,
            ) && 0 <= tile_of(px, tile.width as int) < tile_count(
                area.width as int,
                tile.width as int,
            ) && 0 <= tile_of(py, tile.height as int) < tile_count(
                area.height as int,
                tile.height as int,
            ),
        forall|column: int, row: int, px: int, py: int|
            0 <= column && 0 <= row && #[trigger] tile_contains(area, tile, column, row, px, py)
                ==> 0 <= px < area.width && 0 <= py < area.height && column == tile_of(
                px,
                tile.width as int,
            ) && row == tile_of(py, tile.height as int),
        forall|column: int, row: int|
            0 <= column < tile_count(area.width as int, tile.width as int) && 0 <= row
                < tile_count(area.height as int, tile.height as int) ==> #[trigger] tile_contains(
                area,
                tile,
                column,
                row,
                column * tile.width,
                row * tile.height,
            ),
{
    lemma_tiles_cover_side(area.width as int, tile.width as int);
    lemma_tiles_cover_side(area.height as int, tile.height as int);
    assert forall|px: int, py: int|
        0 <= px < area.width && 0 <= py < area.height implies #[trigger] tile_contains(
        area,
        tile,
        tile_of(px, tile.width as int),
        tile_of(py, tile.height as int),
        px,
        py,
    ) && 0 <= tile_of(px, tile.width as int) < tile_count(area.width as int, tile.width as int)
        && 0 <= tile_of(py, tile.height as int) < tile_count(
        area.height as int,
        tile.height as int,
    ) by {
        assert(in_tile(px, tile_of(px, tile.width as int), area.width as int, tile.width as int));
        assert(in_tile(
            py,
            tile_of(py, tile.height as int),
            area.height as int,
            tile.height as int,
        ));
    }
    assert forall|column: int, row: int|
        0 <= column < tile_count(area.width as int, tile.width as int) && 0 <= row < tile_count(
            area.height as int,
            tile.height as int,
        ) implies #[trigger] tile_contains(
        area,
        tile,
        column,
        row,
        column * tile.width,
        row * tile.height,
    ) by {
        assert(in_tile(column * tile.width, column, area.width as int, tile.width as int));
        assert(in_tile(row * tile.height, row, area.height as int, tile.height as int));
    }
}

/// The coordinate in the source that is drawn at the coordinate `p` of the
/// destination. The tile that covers `p` shows the source from `source_start`
/// on, beginning where the tile starts, or at zero for a tile that starts
/// before the destination does.
pub open spec fn source_position(p: int, origin: int, tile: int, source_start: int) -> int {
    source_start + p - at_least_zero(tile_start(p, origin, tile))
}

/// Whether the mask lets the pixel be drawn. Without a mask every pixel is.
pub open spec fn mask_contains(mask: Option<Rect>, px: int, py: int) -> bool {
    match mask {
        Some(mask) => mask.contains(px, py),
        None => true,
    }
}

/// The destination after the area of the size `area` at `(x, y)` is filled
/// with copies of the rectangle `tile` of the source, laid out side by side
/// from the left top corner of the area on.
///
/// Every pixel of the destination that lies in the area and in the mask is
/// drawn once. All other pixels stay as they are.
pub open spec fn tiled_drawn(
    dst: Seq<u32>,
    dst_width: int,
    src: Seq<u32>,
    src_width: int,
    x: int,
    y: int,
    area: Size,
    tile: Rect,
    mask: Option<Rect>,
) -> Seq<u32> {
    Seq::new(
        dst.len(),
        |i: int|
            {
                let px = i % dst_width;
                let py = i / dst_width;
                if x <= px < x + area.width && y <= py < y + area.height && mask_contains(
                    mask,
                    px,
                    py,
                ) {
                    composite(
                        dst[i],
                        src[source_position(py, y, tile.size.height as int, tile.y as int)
                            * src_width + source_position(
                            px,
                            x,
                            tile.size.width as int,
                            tile.x as int,
                        )],
                    )
                } else {
                    dst[i]
                }
            },
    )
}

/// The destination while an area is being filled: the columns of tiles
/// before `done_x` are drawn, and of the column at `done_x` the rows before
/// `done_y`.
pub open spec fn tiles_drawn(
    dst: Seq<u32>,
    dst_width: int,
    src: Seq<u32>,
    src_width: int,
    x: int,
    y: int,
    area: Size,
    tile: Rect,
    mask: Option<Rect>,
    done_x: int,
    done_y: int,
) -> Seq<u32> {
    Seq::new(
        dst.len(),
        |i: int|
            {
                let px = i % dst_width;
                let py = i / dst_width;
                if x <= px < x + area.width && y <= py < y + area.height && mask_contains(
                    mask,
                    px,
                    py,
                ) && (px - x < done_x || (px - x < done_x + tile.size.width && py - y < done_y)) {
                    composite(
                        dst[i],
                        src[source_position(py, y, tile.size.height as int, tile.y as int)
                            * src_width + source_position(
                            px,
                            x,
                            tile.size.width as int,
                            tile.x as int,
                        )],
                    )
                } else {
                    dst[i]
                }
            },
    )
}

/// A coordinate inside the tile with the number `index` belongs to the tile
/// that starts `index` tiles behind the origin.
pub proof fn lemma_tile_start(p: int, origin: int, tile: int, index: int)
    requires
        0 < tile,
        index * tile <= p - origin < index * tile + tile,
    ensures
        tile_start(p, origin, tile) == origin + index * tile,
{
    lemma_fundamental_div_mod_converse(p - origin, tile, index, p - origin - index * tile);
}

/// Drawing the part of one tile that can be seen is one more step of filling
/// an area.
proof fn lemma_tile_step(
    dst: Seq<u32>,
    dst_width: int,
    dst_height: int,
    src: Seq<u32>,
    src_width: int,
    x: int,
    y: int,
    area: Size,
    tile: Rect,
    mask: Option<Rect>,
    column: int,
    row: int,
    left: int,
    top: int,
    right: int,
    bottom: int,
)
    requires
        dst.len() == dst_width * dst_height,
        0 <= dst_width,
        !tile.is_empty(),
        0 <= column,
        0 <= row,
        column * tile.size.width < area.width,
        row * tile.size.height < area.height,
        // the part of the tile that lies in the area, the destination and the mask
        left == largest(
            x + column * tile.size.width,
            0,
            match mask {
                Some(mask) => mask.x as int,
                None => 0,
            },
        ),
        top == largest(
            y + row * tile.size.height,
            0,
            match mask {
                Some(mask) => mask.y as int,
                None => 0,
            },
        ),
        right == smallest(
            x + smaller(column * tile.size.width + tile.size.width, area.width as int),
            dst_width,
            match mask {
                Some(mask) => mask.right_edge(),
                None => dst_width,
            },
        ),
        bottom == smallest(
            y + smaller(row * tile.size.height + tile.size.height, area.height as int),
            dst_height,
            match mask {
                Some(mask) => mask.bottom_edge(),
                None => dst_height,
            },
        ),
    ensures
        left < right && top < bottom ==> rect_drawn(
            tiles_drawn(
                dst,
                dst_width,
                src,
                src_width,
                x,
                y,
                area,
                tile,
                mask,
                column * tile.size.width,
                row * tile.size.height,
            ),
            dst_width,
            src,
            src_width,
            left,
            top,
            tile.x + left - at_least_zero(x + column * tile.size.width),
            tile.y + top - at_least_zero(y + row * tile.size.height),
            right - left,
            bottom - top,
        ) == tiles_drawn(
            dst,
            dst_width,
            src,
            src_width,
            x,
            y,
            area,
            tile,
            mask,
            column * tile.size.width,
            row * tile.size.height + tile.size.height,
        ),
        !(left < right && top < bottom) ==> tiles_drawn(
            dst,
            dst_width,
            src,
            src_width,
            x,
            y,
            area,
            tile,
            mask,
            column * tile.size.width,
            row * tile.size.height,
        ) == tiles_drawn(
            dst,
            dst_width,
            src,
            src_width,
            x,
            y,
            area,
            tile,
            mask,
            column * tile.size.width,
            row * tile.size.height + tile.size.height,
        ),
{
    let tile_width = tile.size.width as int;
    let tile_height = tile.size.height as int;
    let done_x = column * tile_width;
    let done_y = row * tile_height;
    let before = tiles_drawn(dst, dst_width, src, src_width, x, y, area, tile, mask, done_x, done_y);
    let after = tiles_drawn(
        dst,
        dst_width,
        src,
        src_width,
        x,
        y,
        area,
        tile,
        mask,
        done_x,
        done_y + tile_height,
    );
    let drawn = if left < right && top < bottom {
        rect_drawn(
            before,
            dst_width,
            src,
            src_width,
            left,
            top,
            tile.x + left - at_least_zero(x + done_x),
            tile.y + top - at_least_zero(y + done_y),
            right - left,
            bottom - top,
        )
    } else {
        before
    };
    assert forall|i: int| 0 <= i < dst.len() implies drawn[i] == after[i] by {
        lemma_index_row(i, dst_width, dst_height);
        let px = i % dst_width;
        let py = i / dst_width;
        if done_x <= px - x < done_x + tile_width && done_y <= py - y < done_y + tile_height {
            lemma_tile_start(px, x, tile_width, column);
            lemma_tile_start(py, y, tile_height, row);
        }
    }
    assert(drawn =~= after);
}

/// The largest of three numbers.
pub open spec fn largest(a: int, b: int, c: int) -> int {
    if a >= b && a >= c {
        a
    } else if b >= c {
        b
    } else {
        c
    }
}

/// The smallest of three numbers.
pub open spec fn smallest(a: int, b: int, c: int) -> int {
    if a <= b && a <= c {
        a
    } else if b <= c {
        b
    } else {
        c
    }
}

/// The part of a span from `start` to `end` that lies in the destination,
/// which is `limit` long, and in the span of the mask if there is one. The
/// part is empty where its start is not before its end.
fn visible_span(start: i64, end: i64, limit: u32, mask: Option<(i32, u32)>) -> (r: (i64, i64))
    requires
        -0x2_0000_0000 <= start <= end <= 0x4_0000_0000,
    ensures
        r.0 == largest(
            start as int,
            0,
            match mask {
                Some(mask) => mask.0 as int,
                None => 0,
            },
        ),
        r.1 == smallest(
            end as int,
            limit as int,
            match mask {
                Some(mask) => mask.0 + mask.1,
                None => limit as int,
            },
        ),
{
    let mut first: i64 = if start < 0 {
        0
    } else {
        start
    };
    let mut last: i64 = if end > limit as i64 {
        limit as i64
    } else {
        end
    };
    match mask {
        Some(mask) => {
            let mask_start: i64 = mask.0 as i64;
            let mask_end: i64 = mask.0 as i64 + mask.1 as i64;
            if first < mask_start {
                first = mask_start;
            }
            if last > mask_end {
                last = mask_end;
            }
        },
        None => {},
    }
    (first, last)
}

/// How far behind `origin` the first tile starts that reaches into the
/// destination: the length of the whole tiles that lie before it.
pub open spec fn tiles_skipped(origin: int, tile: int) -> int {
    tile_of(at_least_zero(-origin), tile) * tile
}

/// The length of the whole tiles that lie before the destination, and how
/// many they are.
fn skip_tiles(origin: i64, tile: i64) -> (r: (i64, Ghost<int>))
    requires
        0 < tile,
        -0x1_0000_0000 <= origin <= 0x1_0000_0000,
    ensures
        r.0 == tiles_skipped(origin as int, tile as int),
        r.0 == r.1@ * tile,
        0 <= r.1@,
        0 <= r.0 <= 0x1_0000_0000,
        origin + r.0 <= at_least_zero(origin as int),
{
    if origin < 0 {
        proof {
            lemma_index_pixel(-origin as int, tile as int);
            let count = (-origin as int) / (tile as int);
            if count < 0 {
                assert(count * tile <= -tile) by (nonlinear_arith)
                    requires
                        count <= -1,
                        tile > 0,
                ;
            }
        }
        let count: i64 = (-origin) / tile;
        (count * tile, Ghost(count as int))
    } else {
        proof {
            lemma_pixel_index(0, 0, tile as int);
        }
        (0, Ghost(0))
    }
}

/// Tiles that end before the destination starts are drawn without a step.
proof fn lemma_tiles_before(
    dst: Seq<u32>,
    dst_width: int,
    dst_height: int,
    src: Seq<u32>,
    src_width: int,
    x: int,
    y: int,
    area: Size,
    tile: Rect,
    mask: Option<Rect>,
    done_x: int,
    skipped_x: int,
    skipped_y: int,
)
    requires
        dst.len() == dst_width * dst_height,
        0 <= dst_width,
        x + skipped_x <= 0 || skipped_x <= 0,
        y + skipped_y <= 0 || skipped_y <= 0,
    ensures
        tiles_drawn(dst, dst_width, src, src_width, x, y, area, tile, mask, skipped_x, 0) == dst,
        tiles_drawn(dst, dst_width, src, src_width, x, y, area, tile, mask, done_x, 0)
            == tiles_drawn(dst, dst_width, src, src_width, x, y, area, tile, mask, done_x, skipped_y),
{
    let first = tiles_drawn(dst, dst_width, src, src_width, x, y, area, tile, mask, skipped_x, 0);
    let before = tiles_drawn(dst, dst_width, src, src_width, x, y, area, tile, mask, done_x, 0);
    let after = tiles_drawn(
        dst,
        dst_width,
        src,
        src_width,
        x,
        y,
        area,
        tile,
        mask,
        done_x,
        skipped_y,
    );
    assert forall|i: int| 0 <= i < dst.len() implies first[i] == dst[i] && before[i]
        == after[i] by {
        lemma_index_row(i, dst_width, dst_height);
    }
    assert(first =~= dst);
    assert(before =~= after);
}

/// Fill the area of the size `area` at `(x, y)` of the destination with
/// copies of the rectangle `tile` of the source.
///
/// The tiles are laid out column by column from the left top corner of the
/// area on. The last column and the last row show as much of the tile as
/// the area has room for. Each tile is cut down to what lies in the
/// destination and in the mask before it is drawn.
pub fn draw_tiled(
    dst: &mut [u32],
    dst_size: Size,
    src: &[u32],
    src_size: Size,
    x: i64,
    y: i64,
    area: Size,
    tile: Rect,
    mask: Option<Rect>,
)
    requires
        old(dst)@.len() == dst_size.area(),
        src@.len() == src_size.area(),
        !tile.is_empty(),
        tile.within(Rect::spanning(src_size)),
        -0x1_0000_0000 <= x <= 0x1_0000_0000,
        -0x1_0000_0000 <= y <= 0x1_0000_0000,
    ensures
        final(dst)@ == tiled_drawn(
            old(dst)@,
            dst_size.width as int,
            src@,
            src_size.width as int,
            x as int,
            y as int,
            area,
            tile,
            mask,
        ),
{
    let tile_width: i64 = tile.size.width as i64;
    let tile_height: i64 = tile.size.height as i64;
    let mask_x: Option<(i32, u32)> = match mask {
        Some(mask) => Some((mask.x, mask.size.width)),
        None => None,
    };
    let mask_y: Option<(i32, u32)> = match mask {
        Some(mask) => Some((mask.y, mask.size.height)),
        None => None,
    };
    // Tiles left of the destination and above it are not looked at
    let (skipped_x, Ghost(first_column)) = skip_tiles(x, tile_width);
    let (skipped_y, Ghost(first_row)) = skip_tiles(y, tile_height);
    let mut done_x: i64 = skipped_x;
    let ghost mut column: int = first_column;
    proof {
        lemma_tiles_before(
            old(dst)@,
            dst_size.width as int,
            dst_size.height as int,
            src@,
            src_size.width as int,
            x as int,
            y as int,
            area,
            tile,
            mask,
            done_x as int,
            skipped_x as int,
            skipped_y as int,
        );
    }
    // Tiles right of the destination and below it are not looked at either
    while done_x < area.width as i64 && x + done_x < dst_size.width as i64
        invariant
            dst@.len() == dst_size.area(),
            src@.len() == src_size.area(),
            !tile.is_empty(),
            tile.within(Rect::spanning(src_size)),
            -0x1_0000_0000 <= x <= 0x1_0000_0000,
            -0x1_0000_0000 <= y <= 0x1_0000_0000,
            tile_width == tile.size.width,
            tile_height == tile.size.height,
            mask_x == (match mask {
                Some(mask) => Some((mask.x, mask.size.width)),
                None => None,
            }),
            mask_y == (match mask {
                Some(mask) => Some((mask.y, mask.size.height)),
                None => None,
            }),
            0 <= column,
            done_x == column * tile_width,
            0 <= done_x <= 0x2_0000_0000,
            0 <= first_row,
            skipped_y == first_row * tile_height,
            0 <= skipped_y <= 0x1_0000_0000,
            y + skipped_y <= 0 || skipped_y <= 0,
            dst@ == tiles_drawn(
                old(dst)@,
                dst_size.width as int,
                src@,
                src_size.width as int,
                x as int,
                y as int,
                area,
                tile,
                mask,
                done_x as int,
                0,
            ),
        decreases 0x2_0000_0000 - done_x,
    {
        let left: i64 = x + done_x;
        let right: i64 = if done_x + tile_width < area.width as i64 {
            left + tile_width
        } else {
            x + area.width as i64
        };
        let (first_x, last_x) = visible_span(left, right, dst_size.width, mask_x);
        // A column of which nothing can be seen is done without a look at its tiles
        let mut done_y: i64 = if first_x < last_x {
            skipped_y
        } else {
            area.height as i64
        };
        let ghost mut row: int = first_row;
        proof {
            if first_x < last_x {
                lemma_tiles_before(
                    old(dst)@,
                    dst_size.width as int,
                    dst_size.height as int,
                    src@,
                    src_size.width as int,
                    x as int,
                    y as int,
                    area,
                    tile,
                    mask,
                    done_x as int,
                    0,
                    skipped_y as int,
                );
            } else {
                lemma_column_unseen(
                    old(dst)@,
                    dst_size.width as int,
                    dst_size.height as int,
                    src@,
                    src_size.width as int,
                    x as int,
                    y as int,
                    area,
                    tile,
                    mask,
                    done_x as int,
                );
            }
        }
        while done_y < area.height as i64 && y + done_y < dst_size.height as i64
            invariant
                dst@.len() == dst_size.area(),
                src@.len() == src_size.area(),
                !tile.is_empty(),
                tile.within(Rect::spanning(src_size)),
                -0x1_0000_0000 <= x <= 0x1_0000_0000,
                -0x1_0000_0000 <= y <= 0x1_0000_0000,
                tile_width == tile.size.width,
                tile_height == tile.size.height,
                mask_y == (match mask {
                    Some(mask) => Some((mask.y, mask.size.height)),
                    None => None,
                }),
                0 <= column,
                done_x == column * tile_width,
                0 <= done_x < area.width,
                left == x + done_x,
                first_x == largest(
                    left as int,
                    0,
                    match mask {
                        Some(mask) => mask.x as int,
                        None => 0,
                    },
                ),
                last_x == smallest(
                    x + smaller(done_x + tile_width, area.width as int),
                    dst_size.width as int,
                    match mask {
                        Some(mask) => mask.right_edge(),
                        None => dst_size.width as int,
                    },
                ),
                0 <= row,
                done_y == row * tile_height || (done_y == area.height && first_x >= last_x),
                0 <= done_y <= 0x2_0000_0000,
                dst@ == tiles_drawn(
                    old(dst)@,
                    dst_size.width as int,
                    src@,
                    src_size.width as int,
                    x as int,
                    y as int,
                    area,
                    tile,
                    mask,
                    done_x as int,
                    done_y as int,
                ),
            decreases 0x2_0000_0000 - done_y,
        {
            let top: i64 = y + done_y;
            let bottom: i64 = if done_y + tile_height < area.height as i64 {
                top + tile_height
            } else {
                y + area.height as i64
            };
            let (first_y, last_y) = visible_span(top, bottom, dst_size.height, mask_y);
            proof {
                lemma_tile_step(
                    old(dst)@,
                    dst_size.width as int,
                    dst_size.height as int,
                    src@,
                    src_size.width as int,
                    x as int,
                    y as int,
                    area,
                    tile,
                    mask,
                    column,
                    row,
                    first_x as int,
                    first_y as int,
                    last_x as int,
                    last_y as int,
                );
                assert((row + 1) * tile_height == row * tile_height + tile_height)
                    by (nonlinear_arith);
            }
            if first_x < last_x && first_y < last_y {
                // Where a tile starts before the destination the source is shown from its start
                let anchor_x: i64 = if left < 0 {
                    0
                } else {
                    left
                };
                let anchor_y: i64 = if top < 0 {
                    0
                } else {
                    top
                };
                draw_rect(
                    dst,
                    dst_size,
                    src,
                    src_size,
                    first_x as u32,
                    first_y as u32,
                    (tile.x as i64 + first_x - anchor_x) as u32,
                    (tile.y as i64 + first_y - anchor_y) as u32,
                    (last_x - first_x) as u32,
                    (last_y - first_y) as u32,
                );
            }
            done_y = done_y + tile_height;
            proof {
                row = row + 1;
            }
        }
        proof {
            assert((column + 1) * tile_width == column * tile_width + tile_width)
                by (nonlinear_arith);
            lemma_column_done(
                old(dst)@,
                dst_size.width as int,
                dst_size.height as int,
                src@,
                src_size.width as int,
                x as int,
                y as int,
                area,
                tile,
                mask,
                done_x as int,
                done_y as int,
            );
        }
        done_x = done_x + tile_width;
        proof {
            column = column + 1;
        }
    }
    proof {
        lemma_area_done(
            old(dst)@,
            dst_size.width as int,
            dst_size.height as int,
            src@,
            src_size.width as int,
            x as int,
            y as int,
            area,
            tile,
            mask,
            done_x as int,
        );
    }
}

/// A column of tiles is drawn when its rows reach the end of the area or of
/// the destination.
proof fn lemma_column_done(
    dst: Seq<u32>,
    dst_width: int,
    dst_height: int,
    src: Seq<u32>,
    src_width: int,
    x: int,
    y: int,
    area: Size,
    tile: Rect,
    mask: Option<Rect>,
    done_x: int,
    done_y: int,
)
    requires
        dst.len() == dst_width * dst_height,
        0 <= dst_width,
        0 <= done_y,
        done_y >= area.height || y + done_y >= dst_height,
    ensures
        tiles_drawn(dst, dst_width, src, src_width, x, y, area, tile, mask, done_x, done_y)
            == tiles_drawn(
            dst,
            dst_width,
            src,
            src_width,
            x,
            y,
            area,
            tile,
            mask,
            done_x + tile.size.width,
            0,
        ),
{
    let before = tiles_drawn(dst, dst_width, src, src_width, x, y, area, tile, mask, done_x, done_y);
    let after = tiles_drawn(
        dst,
        dst_width,
        src,
        src_width,
        x,
        y,
        area,
        tile,
        mask,
        done_x + tile.size.width,
        0,
    );
    assert forall|i: int| 0 <= i < dst.len() implies before[i] == after[i] by {
        lemma_index_row(i, dst_width, dst_height);
    }
    assert(before =~= after);
}

/// A column of tiles that has no pixel in the destination and in the mask is
/// drawn without a step.
proof fn lemma_column_unseen(
    dst: Seq<u32>,
    dst_width: int,
    dst_height: int,
    src: Seq<u32>,
    src_width: int,
    x: int,
    y: int,
    area: Size,
    tile: Rect,
    mask: Option<Rect>,
    done_x: int,
)
    requires
        dst.len() == dst_width * dst_height,
        0 <= dst_width,
        0 <= done_x,
        largest(
            x + done_x,
            0,
            match mask {
                Some(mask) => mask.x as int,
                None => 0,
            },
        ) >= smallest(
            x + smaller(done_x + tile.size.width, area.width as int),
            dst_width,
            match mask {
                Some(mask) => mask.right_edge(),
                None => dst_width,
            },
        ),
    ensures
        tiles_drawn(dst, dst_width, src, src_width, x, y, area, tile, mask, done_x, 0)
            == tiles_drawn(
            dst,
            dst_width,
            src,
            src_width,
            x,
            y,
            area,
            tile,
            mask,
            done_x,
            area.height as int,
        ),
{
    let before = tiles_drawn(dst, dst_width, src, src_width, x, y, area, tile, mask, done_x, 0);
    let after = tiles_drawn(
        dst,
        dst_width,
        src,
        src_width,
        x,
        y,
        area,
        tile,
        mask,
        done_x,
        area.height as int,
    );
    assert forall|i: int| 0 <= i < dst.len() implies before[i] == after[i] by {
        lemma_index_row(i, dst_width, dst_height);
    }
    assert(before =~= after);
}

/// An area is filled when the columns of tiles reach its end or the end of
/// the destination.
proof fn lemma_area_done(
    dst: Seq<u32>,
    dst_width: int,
    dst_height: int,
    src: Seq<u32>,
    src_width: int,
    x: int,
    y: int,
    area: Size,
    tile: Rect,
    mask: Option<Rect>,
    done_x: int,
)
    requires
        dst.len() == dst_width * dst_height,
        0 <= dst_width,
        done_x >= area.width || x + done_x >= dst_width,
    ensures
        tiles_drawn(dst, dst_width, src, src_width, x, y, area, tile, mask, done_x, 0)
            == tiled_drawn(dst, dst_width, src, src_width, x, y, area, tile, mask),
{
    let before = tiles_drawn(dst, dst_width, src, src_width, x, y, area, tile, mask, done_x, 0);
    let after = tiled_drawn(dst, dst_width, src, src_width, x, y, area, tile, mask);
    assert forall|i: int| 0 <= i < dst.len() implies before[i] == after[i] by {
        lemma_index_row(i, dst_width, dst_height);
    }
    assert(before =~= after);
}

} // verus!
