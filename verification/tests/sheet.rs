use blit::aseprite::animation::{subrect_from_rect, wrap_frame};
use blit::aseprite::{
    AnimationBlitBuffer, AnimationStatus, Frame, FrameTag, SheetSlice, SliceKey, Slice9BlitBuffer,
    SpritesheetData,
};
use blit::error::Error;
use blit::geom::{Rect, Size};
use blit::{Blit, BlitBuffer, BlitOptions};

fn numbered(width: u32, height: u32) -> BlitBuffer {
    let pixels: Vec<u32> = (0..width * height).collect();
    BlitBuffer::from_iter(pixels, width as i64, 0)
}

fn opaque(value: u32) -> u32 {
    value | 0xFF_00_00_00
}

fn sheet(slices: Vec<SheetSlice>) -> SpritesheetData {
    SpritesheetData {
        frames: vec![
            Frame {
                frame: Rect::new(0, 0, Size::new(2, 2)),
                duration: 100,
            },
            Frame {
                frame: Rect::new(2, 0, Size::new(2, 2)),
                duration: 250,
            },
        ],
        frame_tags: Some(vec![
            FrameTag {
                name: "walk".to_string(),
                from: 0,
                to: 1,
            },
            FrameTag {
                name: "idle".to_string(),
                from: 1,
                to: 1,
            },
            FrameTag {
                name: "walk".to_string(),
                from: 5,
                to: 9,
            },
        ]),
        slices,
    }
}

#[test]
fn frame_range_of_the_first_tag_with_the_name() {
    let info = sheet(vec![]);
    assert_eq!(info.frame_range(&"walk".to_string()), Ok((0, 1)));
    assert_eq!(info.frame_range(&"idle".to_string()), Ok((1, 1)));
    assert_eq!(
        info.frame_range(&"run".to_string()),
        Err(Error::NoMatchingFrameTag("run".to_string()))
    );
}

#[test]
fn frame_range_without_tags() {
    let mut info = sheet(vec![]);
    info.frame_tags = None;
    assert_eq!(
        info.frame_range(&"walk".to_string()),
        Err(Error::NoFrameTagsInMetadata)
    );
}

#[test]
fn frame_duration_in_and_out_of_bounds() {
    let info = sheet(vec![]);
    assert_eq!(info.frame_duration(1), Ok(250));
    assert_eq!(info.frame_duration(2), Err(Error::FrameOutOfBounds(2)));
}

#[test]
fn animation_draws_the_current_frame() {
    let mut animation = AnimationBlitBuffer::new(numbered(4, 2), sheet(vec![]));
    let mut dst = vec![0u32; 3 * 3];
    animation.blit(&mut dst, Size::new(3, 3), &BlitOptions::new_position(1, 1));
    assert_eq!(
        dst,
        [0, 0, 0, 0, opaque(0), opaque(1), 0, opaque(4), opaque(5)]
    );

    animation.set_frame(1);
    let mut dst = vec![0u32; 3 * 3];
    animation.blit(&mut dst, Size::new(3, 3), &BlitOptions::new());
    assert_eq!(
        dst,
        [opaque(2), opaque(3), 0, opaque(6), opaque(7), 0, 0, 0, 0]
    );

    // There is no third frame
    animation.set_frame(2);
    let mut dst = vec![0u32; 3 * 3];
    animation.blit(&mut dst, Size::new(3, 3), &BlitOptions::new());
    assert_eq!(dst, vec![0u32; 3 * 3]);
    assert_eq!(
        animation.blit_frame(&mut dst, Size::new(3, 3), &BlitOptions::new(), 7),
        Err(Error::FrameOutOfBounds(7))
    );
    assert_eq!(
        animation.blit_frame(&mut dst, Size::new(3, 3), &BlitOptions::new(), 0),
        Ok(())
    );
    assert_eq!(dst[0], opaque(0));
}

#[test]
fn animation_status_values() {
    assert_ne!(AnimationStatus::Repeat, AnimationStatus::Playing);
    assert_ne!(AnimationStatus::Playing, AnimationStatus::Stopped);
}

#[test]
fn sub_rectangle_of_a_rectangle() {
    assert_eq!(
        subrect_from_rect((10, 20, 30, 40), (5, 5, 10, 10)),
        (15, 25, 10, 10)
    );
    // The sub rectangle ends with the rectangle
    assert_eq!(
        subrect_from_rect((10, 20, 30, 40), (25, 35, 10, 10)),
        (35, 55, 5, 5)
    );
    // The sub rectangle starts behind the rectangle
    assert_eq!(
        subrect_from_rect((10, 20, 30, 40), (35, 0, 10, 10)),
        (45, 20, -5, 10)
    );
}

fn slice_with_center(center: Option<Rect>) -> SheetSlice {
    SheetSlice {
        name: "panel".to_string(),
        keys: vec![SliceKey { center }],
    }
}

#[test]
fn slice9_needs_its_metadata() {
    assert_eq!(
        Slice9BlitBuffer::new(numbered(3, 3), sheet(vec![])).err(),
        Some(Error::NoSlicesInMetadata)
    );
    assert_eq!(
        Slice9BlitBuffer::new(
            numbered(3, 3),
            sheet(vec![SheetSlice {
                name: "panel".to_string(),
                keys: vec![],
            }])
        )
        .err(),
        Some(Error::NoSliceKeyInSlice("panel".to_string()))
    );
    assert_eq!(
        Slice9BlitBuffer::new(numbered(3, 3), sheet(vec![slice_with_center(None)])).err(),
        Some(Error::NoSliceCenterInSliceKey("panel".to_string()))
    );
}

fn panel() -> Slice9BlitBuffer {
    let center = Rect::new(1, 1, Size::new(1, 1));
    Slice9BlitBuffer::new(numbered(3, 3), sheet(vec![slice_with_center(Some(center))])).unwrap()
}

#[test]
fn slice9_fills_an_area() {
    let panel = panel();
    assert_eq!(panel.size(), Size::new(3, 3));
    let mut dst = vec![0u32; 6 * 5];
    panel.blit_area(&mut dst, Size::new(6, 5), Rect::new(1, 0, Size::new(4, 5)));
    let column = [0, 1, 1, 2];
    let row = [0, 1, 1, 1, 2];
    for y in 0..5 {
        for x in 0..6 {
            let expected = if (1..5).contains(&x) {
                opaque((row[y] * 3 + column[x - 1]) as u32)
            } else {
                0
            };
            assert_eq!(dst[y * 6 + x], expected, "at ({x}, {y})");
        }
    }
}

#[test]
fn slice9_area_not_bigger_than_the_image_draws_the_image() {
    let panel = panel();
    let mut dst = vec![0u32; 4 * 4];
    panel.blit_area(&mut dst, Size::new(4, 4), Rect::new(1, 1, Size::new(2, 3)));
    for y in 0..4 {
        for x in 0..4 {
            let expected = if x >= 1 && y >= 1 {
                opaque(((y - 1) * 3 + (x - 1)) as u32)
            } else {
                0
            };
            assert_eq!(dst[y * 4 + x], expected, "at ({x}, {y})");
        }
    }
}

#[test]
fn slice9_area_is_cut_to_the_destination() {
    let panel = panel();
    let mut dst = vec![0u32; 4 * 4];
    // The area asked for is wider than the destination
    panel.blit_area(&mut dst, Size::new(4, 4), Rect::new(0, 0, Size::new(100, 3)));
    let column = [0, 1, 1, 2];
    for y in 0..4 {
        for x in 0..4 {
            let expected = if y < 3 {
                opaque((y * 3 + column[x]) as u32)
            } else {
                0
            };
            assert_eq!(dst[y * 4 + x], expected, "at ({x}, {y})");
        }
    }
}

#[test]
fn slice9_blit_uses_the_area_of_the_options() {
    let panel = panel();
    let mut dst = vec![0u32; 5 * 3];
    panel.blit(
        &mut dst,
        Size::new(5, 3),
        &BlitOptions::new().with_area(Size::new(5, 3)),
    );
    let column = [0, 1, 1, 1, 2];
    for y in 0..3 {
        for x in 0..5 {
            assert_eq!(dst[y * 5 + x], opaque((y * 3 + column[x]) as u32), "at ({x}, {y})");
        }
    }
}

#[test]
fn frames_wrap_around_the_range() {
    // Inside of the range nothing moves
    assert_eq!(wrap_frame(2, 5, 4, false), (4, AnimationStatus::Playing));
    assert_eq!(wrap_frame(2, 5, 5, true), (5, AnimationStatus::Repeat));
    // Past the end a repeating animation is taken back by the length of the range
    assert_eq!(wrap_frame(2, 5, 6, true), (3, AnimationStatus::Repeat));
    assert_eq!(wrap_frame(2, 5, 12, true), (3, AnimationStatus::Repeat));
    assert_eq!(wrap_frame(2, 5, 11, true), (5, AnimationStatus::Repeat));
    // One that does not repeat is taken back once and stops
    assert_eq!(wrap_frame(2, 5, 12, false), (9, AnimationStatus::Stopped));
    assert_eq!(wrap_frame(3, 3, 4, false), (4, AnimationStatus::Stopped));
}
