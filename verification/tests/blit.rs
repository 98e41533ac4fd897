use blit::error::Error;
use blit::geom::{Rect, Size};
use blit::slice::Slice;
use blit::{Blit, BlitBuffer, BlitOptions};

#[test]
fn exact_fit() {
    let mut buffer = [0xFF, 0xFF_00, 0xFF_00_00, 0xFF, 0xFF_00, 0xFF_00_00];

    // The last number should be masked
    let blit = BlitBuffer::from_buffer(
        &[
            0xFF_00_00_AA,
            0xFF_00_AA_00,
            0xFF_AA_00_00,
            0xBB,
            0xBB,
            0xBB,
        ],
        2,
        127,
    );
    blit.blit(
        &mut buffer,
        Size::new(2, 3),
        &BlitOptions::new_position(0, 0),
    );

    // Create a copy but cast the u32 to a i32
    let expected = [
        0xAA | 0xFF_00_00_00,
        0xAA_00 | 0xFF_00_00_00,
        0xAA_00_00 | 0xFF_00_00_00,
        0xFF,
        0xFF_00,
        0xFF_00_00,
    ];
    assert_eq!(
        buffer, expected,
        "\nResult:\n{:08x?}\nExpected:\n{:08x?}",
        &buffer, &expected
    );
}

/// A source of 4x4 opaque pixels whose color tells their position.
fn numbered(width: u32, height: u32) -> BlitBuffer {
    let pixels: Vec<u32> = (0..width * height).collect();
    BlitBuffer::from_iter(pixels, width as i64, 0)
}

fn opaque(value: u32) -> u32 {
    value | 0xFF_00_00_00
}

#[test]
fn from_iter_stores_binary_alpha() {
    let buffer = BlitBuffer::from_iter(
        vec![0x7E_12_34_56, 0x7F_12_34_56, 0x80_00_00_01, 0x00_00_00_00, 0x11],
        2,
        127,
    );
    // The fifth pixel does not fill a row
    assert_eq!(buffer.size(), Size::new(2, 2));
    assert_eq!(buffer.width(), 2);
    assert_eq!(buffer.height(), 2);
    assert_eq!(
        buffer.pixels(),
        [0x00_00_00_00, 0xFF_12_34_56, 0xFF_00_00_01, 0x00_00_00_00]
    );
}

#[test]
fn pixels_mut_changes_the_image() {
    let mut buffer = numbered(2, 1);
    buffer.pixels_mut()[1] = 0;
    let mut dst = [7, 7];
    buffer.blit(&mut dst, Size::new(2, 1), &BlitOptions::new());
    assert_eq!(dst, [opaque(0), 7]);
}

#[test]
fn negative_offset_draws_what_remains() {
    let source = numbered(10, 10);
    let mut dst = vec![0u32; 20 * 20];
    source.blit(
        &mut dst,
        Size::new(20, 20),
        &BlitOptions::new_position(-5, -5),
    );
    for y in 0..20 {
        for x in 0..20 {
            let expected = if x < 5 && y < 5 {
                // What is left of the image is drawn from its first pixel on
                opaque((y * 10 + x) as u32)
            } else {
                0
            };
            assert_eq!(dst[y * 20 + x], expected, "at ({x}, {y})");
        }
    }
}

#[test]
fn offset_beyond_the_destination_draws_nothing() {
    let source = numbered(4, 4);
    let mut dst = vec![1u32; 8 * 8];
    for (x, y) in [(8, 0), (0, 8), (-4, 0), (0, -4), (-100, -100)] {
        source.blit(&mut dst, Size::new(8, 8), &BlitOptions::new_position(x, y));
    }
    source.blit(
        &mut dst,
        Size::new(8, 8),
        &BlitOptions::new_position(i32::MAX as i64, i32::MIN as i64),
    );
    assert_eq!(dst, vec![1u32; 8 * 8]);
}

#[test]
fn clipped_at_the_right_and_bottom() {
    let source = numbered(4, 4);
    let mut dst = vec![0u32; 6 * 6];
    source.blit(&mut dst, Size::new(6, 6), &BlitOptions::new_position(4, 3));
    for y in 0..6 {
        for x in 0..6 {
            let expected = if x >= 4 && y >= 3 {
                opaque(((y - 3) * 4 + (x - 4)) as u32)
            } else {
                0
            };
            assert_eq!(dst[y * 6 + x], expected, "at ({x}, {y})");
        }
    }
}

#[test]
fn sub_rect_selects_a_part() {
    let source = numbered(4, 4);
    let mut dst = vec![0u32; 6 * 6];
    let options = BlitOptions::new_position(1, 2).with_sub_rect((2, 1, 2, 2).into());
    source.blit(&mut dst, Size::new(6, 6), &options);
    for y in 0..6 {
        for x in 0..6 {
            let expected = if (1..3).contains(&x) && (2..4).contains(&y) {
                opaque(((y - 2 + 1) * 4 + (x - 1 + 2)) as u32)
            } else {
                0
            };
            assert_eq!(dst[y * 6 + x], expected, "at ({x}, {y})");
        }
    }
}

#[test]
fn area_smaller_than_the_source_cuts_it() {
    let source = numbered(4, 4);
    let mut dst = vec![0u32; 6 * 6];
    let options = BlitOptions::new().with_area((3, 2).into());
    source.blit(&mut dst, Size::new(6, 6), &options);
    for y in 0..6 {
        for x in 0..6 {
            let expected = if x < 3 && y < 2 {
                opaque((y * 4 + x) as u32)
            } else {
                0
            };
            assert_eq!(dst[y * 6 + x], expected, "at ({x}, {y})");
        }
    }
}

#[test]
fn area_bigger_than_the_source_tiles_it() {
    let source = numbered(3, 2);
    let mut dst = vec![0u32; 10 * 10];
    let options = BlitOptions::new_position(1, 1).with_area((7, 5).into());
    source.blit(&mut dst, Size::new(10, 10), &options);
    for y in 0..10 {
        for x in 0..10 {
            let expected = if (1..8).contains(&x) && (1..6).contains(&y) {
                opaque((((y - 1) % 2) * 3 + (x - 1) % 3) as u32)
            } else {
                0
            };
            assert_eq!(dst[y * 10 + x], expected, "at ({x}, {y})");
        }
    }
}

#[test]
fn tiles_are_clipped_by_the_destination() {
    let source = numbered(3, 3);
    let mut dst = vec![0u32; 5 * 5];
    let options = BlitOptions::new_position(-4, -1).with_area((20, 20).into());
    source.blit(&mut dst, Size::new(5, 5), &options);
    for y in 0..5i64 {
        for x in 0..5i64 {
            // The tile that starts before the destination shows the image from its first pixel on
            let column = if x < 2 { x } else { (x + 4) % 3 };
            let row = if y < 2 { y } else { (y + 1) % 3 };
            assert_eq!(
                dst[(y * 5 + x) as usize],
                opaque((row * 3 + column) as u32),
                "at ({x}, {y})"
            );
        }
    }
}

#[test]
fn mask_limits_what_is_drawn() {
    let source = numbered(4, 4);
    let mut dst = vec![0u32; 8 * 8];
    let options = BlitOptions::new_position(2, 2).with_mask((3, 4, 2, 10).into());
    source.blit(&mut dst, Size::new(8, 8), &options);
    for y in 0..8 {
        for x in 0..8 {
            let expected = if (3..5).contains(&x) && (4..6).contains(&y) {
                opaque(((y - 2) * 4 + (x - 2)) as u32)
            } else {
                0
            };
            assert_eq!(dst[y * 8 + x], expected, "at ({x}, {y})");
        }
    }
}

#[test]
fn mask_beside_the_image_draws_nothing() {
    let source = numbered(4, 4);
    let mut dst = vec![0u32; 8 * 8];
    let options = BlitOptions::new_position(0, 0).with_mask((5, 5, 2, 2).into());
    source.blit(&mut dst, Size::new(8, 8), &options);
    assert_eq!(dst, vec![0u32; 8 * 8]);
}

#[test]
fn sub_rect_outside_the_source_draws_nothing() {
    let source = numbered(4, 4);
    let mut dst = vec![0u32; 8 * 8];
    let options = BlitOptions::new().with_sub_rect((4, 0, 2, 2).into());
    source.blit(&mut dst, Size::new(8, 8), &options);
    assert_eq!(dst, vec![0u32; 8 * 8]);
}

#[test]
fn transparent_pixels_leave_the_destination() {
    let source = BlitBuffer::from_buffer(&[0xFF_00_00_01, 0, 0x10_00_00_02, 0xFF_00_00_03], 2, 0x80);
    let mut dst = [9, 9, 9, 9];
    source.blit(&mut dst, Size::new(2, 2), &BlitOptions::new());
    assert_eq!(dst, [0xFF_00_00_01, 9, 9, 0xFF_00_00_03]);
    assert_eq!(BlitBuffer::blit_pixel(5, 0x00_FF_FF_FF), 5);
    assert_eq!(BlitBuffer::blit_pixel(5, 0x01_00_00_00), 0x01_00_00_00);
}

#[test]
fn blit_horizontal_takes_the_shorter_range() {
    let source = numbered(4, 1);
    let mut dst = [0u32; 6];
    source.blit_horizontal(&mut dst, 1..6, 2..4);
    assert_eq!(dst, [0, opaque(2), opaque(3), 0, 0, 0]);
}

#[test]
fn slice9_scales_the_middle() {
    // 3x3 source whose pixels tell their position, each part is one pixel
    let source = numbered(3, 3);
    let mut dst = vec![0u32; 5 * 5];
    let options = BlitOptions::new()
        .with_area((5, 4).into())
        .with_slice9((1, 1, 1, 1).into());
    source.blit(&mut dst, Size::new(5, 5), &options);
    let column = [0, 1, 1, 1, 2];
    let row = [0, 1, 1, 2];
    for y in 0..5 {
        for x in 0..5 {
            let expected = if y < 4 {
                opaque((row[y] * 3 + column[x]) as u32)
            } else {
                0
            };
            assert_eq!(dst[y * 5 + x], expected, "at ({x}, {y})");
        }
    }
}

#[test]
fn single_slice_keeps_the_other_side() {
    let source = numbered(3, 2);
    let mut dst = vec![0u32; 8 * 3];
    // Only the columns are cut: the rows keep the height of the source
    let options = BlitOptions::new_position(1, 0)
        .with_area((6, 3).into())
        .with_vertical_slice(Slice::binary_last(1));
    source.blit(&mut dst, Size::new(8, 3), &options);
    let column = [0, 1, 2, 1, 2, 1];
    for y in 0..3 {
        for x in 0..8 {
            let expected = if (1..7).contains(&x) && y < 2 {
                opaque((y * 3 + column[x - 1]) as u32)
            } else {
                0
            };
            assert_eq!(dst[y * 8 + x], expected, "at ({x}, {y})");
        }
    }
}

#[test]
fn slice_projections_of_a_grid() {
    let source = numbered(3, 3);
    let options = BlitOptions::new().with_slice9((1, 1, 1, 1).into());
    let pieces = source.slice_projections(&options, Size::new(5, 4));
    assert_eq!(pieces.len(), 9);
    assert_eq!(
        pieces[0],
        (Rect::new(0, 0, Size::new(1, 1)), Rect::new(0, 0, Size::new(1, 1)))
    );
    assert_eq!(
        pieces[4],
        (Rect::new(1, 1, Size::new(1, 1)), Rect::new(1, 1, Size::new(3, 2)))
    );
    assert_eq!(
        pieces[5],
        (Rect::new(2, 1, Size::new(1, 1)), Rect::new(4, 1, Size::new(1, 2)))
    );
    assert_eq!(
        source.slice_projections(&BlitOptions::new(), Size::new(5, 4)),
        vec![]
    );
}

#[test]
fn stored_bytes_round_trip() {
    let buffer = BlitBuffer::from_buffer(&[0xFF_00_00_01, 0, 0x10_00_00_02, 0x80_AB_CD_EF], 2, 0x80);
    let bytes = buffer.to_bytes();
    assert_eq!(
        bytes,
        [
            2, 0, 0, 0, 2, 0, 0, 0, 0x01, 0x00, 0x00, 0xFF, 0, 0, 0, 0, 0, 0, 0, 0, 0xEF, 0xCD,
            0xAB, 0xFF
        ]
    );
    let restored = BlitBuffer::from_bytes(&bytes).unwrap();
    assert_eq!(restored, buffer);
    assert_eq!(restored.size(), Size::new(2, 2));
    assert_eq!(restored.pixels(), buffer.pixels());
}

#[test]
fn corrupt_bytes_are_refused() {
    let buffer = numbered(3, 2);
    let bytes = buffer.to_bytes();
    // Too short for a size
    assert_eq!(BlitBuffer::from_bytes(&bytes[..7]), Err(Error::CorruptBuffer));
    // A pixel is missing, then a byte of a pixel
    assert_eq!(
        BlitBuffer::from_bytes(&bytes[..bytes.len() - 4]),
        Err(Error::CorruptBuffer)
    );
    assert_eq!(
        BlitBuffer::from_bytes(&bytes[..bytes.len() - 1]),
        Err(Error::CorruptBuffer)
    );
    // A byte too many
    let mut longer = bytes.clone();
    longer.push(0);
    assert_eq!(BlitBuffer::from_bytes(&longer), Err(Error::CorruptBuffer));
    // No width
    let mut empty = bytes.clone();
    empty[0] = 0;
    assert_eq!(BlitBuffer::from_bytes(&empty), Err(Error::CorruptBuffer));
    assert_eq!(BlitBuffer::from_bytes(&[0; 8]), Err(Error::CorruptBuffer));
    assert_eq!(BlitBuffer::from_bytes(&bytes), Ok(buffer));
}

#[test]
fn slice_with_a_sub_rect_shifts_it_to_each_piece() {
    let source = numbered(4, 4);
    let mut dst = vec![0u32; 3 * 4];
    // The first two columns of the buffer keep their width, the rest scales
    let options = BlitOptions::new()
        .with_sub_rect((1, 0, 3, 4).into())
        .with_vertical_slice(Slice::binary_last(2));
    source.blit(&mut dst, Size::new(3, 4), &options);
    let column = [1, 2, 2];
    for y in 0..4 {
        for x in 0..3 {
            assert_eq!(
                dst[y * 3 + x],
                opaque((y * 4 + column[x]) as u32),
                "at ({x}, {y})"
            );
        }
    }
}

#[test]
fn empty_area_draws_nothing() {
    let source = numbered(4, 4);
    let mut dst = vec![0u32; 4 * 4];
    source.blit(
        &mut dst,
        Size::new(4, 4),
        &BlitOptions::new().with_area(Size::new(0, 3)),
    );
    source.blit_slice(
        &mut dst,
        Size::new(4, 4),
        &BlitOptions::new().with_sub_rect((0, 0, 0, 0).into()),
    );
    assert_eq!(dst, vec![0u32; 4 * 4]);
}

#[test]
fn huge_area_is_drawn_as_far_as_the_destination_goes() {
    let source = numbered(2, 2);
    let mut dst = vec![0u32; 3 * 3];
    let options = BlitOptions::new_position(-1_000_000, 1)
        .with_area(Size {
            width: u32::MAX,
            height: u32::MAX,
        });
    source.blit(&mut dst, Size::new(3, 3), &options);
    // The tiles start at an even column, so the first column of the destination is the first of a tile
    assert_eq!(
        dst,
        [0, 0, 0, opaque(0), opaque(1), opaque(0), opaque(2), opaque(3), opaque(2)]
    );
}

#[test]
fn far_away_tiles_are_skipped() {
    let source = numbered(1, 1);
    let mut dst = vec![0u32; 2 * 2];
    let options = BlitOptions::new_position(i32::MIN as i64, i32::MIN as i64).with_area(Size {
        width: u32::MAX,
        height: u32::MAX,
    });
    source.blit(&mut dst, Size::new(2, 2), &options);
    assert_eq!(dst, vec![opaque(0); 4]);
}
