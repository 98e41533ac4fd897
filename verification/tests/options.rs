use blit::geom::{Rect, Size};
use blit::slice::Slice;
use blit::BlitOptions;

#[test]
fn area_limits_the_sub_rect() {
    assert_eq!(
        BlitOptions::default()
            .with_area((10, 10).into())
            .sub_rect((100, 100).into()),
        BlitOptions::default()
            .with_sub_rect((0, 0, 10, 10).into())
            .sub_rect((100, 100).into())
    );
}

#[test]
fn defaults_come_from_the_source() {
    let options = BlitOptions::new();
    assert_eq!(options, BlitOptions::default());
    assert_eq!(options.position(), (0, 0));
    assert_eq!(options.area(Size::new(7, 8)), Size::new(7, 8));
    assert_eq!(
        options.sub_rect(Size::new(7, 8)),
        Rect::new(0, 0, Size::new(7, 8))
    );
}

#[test]
fn sub_rect_sets_the_area_once() {
    let options = BlitOptions::new().with_sub_rect((1, 2, 3, 4).into());
    assert_eq!(options.area, Some(Size::new(3, 4)));
    let options = BlitOptions::new()
        .with_area((9, 9).into())
        .with_sub_rect((1, 2, 3, 4).into());
    assert_eq!(options.area, Some(Size::new(9, 9)));
    assert_eq!(
        options.sub_rect(Size::new(100, 100)),
        Rect::new(1, 2, Size::new(3, 4))
    );
}

#[test]
fn positions() {
    assert_eq!(BlitOptions::new_position(3, -4).position(), (3, -4));
    assert_eq!(BlitOptions::new_position(1 << 31, 5).position(), (0, 5));
    assert_eq!(BlitOptions::new_position_tuple((6, 7)).position(), (6, 7));
    assert_eq!(BlitOptions::new().with_position(8, 9).position(), (8, 9));
    let mut options = BlitOptions::new();
    options.set_position((-1, -2));
    assert_eq!(options.position(), (-1, -2));
}

#[test]
fn setters() {
    let mut options = BlitOptions::new();
    options.set_area(Size::new(1, 2));
    options.set_mask((3, 4, 5, 6).into());
    options.set_horizontal_slice(Slice::binary_first(2));
    options.set_vertical_slice(Slice::binary_last(3));
    assert_eq!(
        options,
        BlitOptions::new()
            .with_area(Size::new(1, 2))
            .with_mask((3, 4, 5, 6).into())
            .with_horizontal_slice(Slice::binary_first(2))
            .with_vertical_slice(Slice::binary_last(3))
    );
    options.set_slice9((3, 4, 5, 6).into());
    assert_eq!(options.vertical_slice, Some(Slice::ternary(3, 8)));
    assert_eq!(options.horizontal_slice, Some(Slice::ternary(4, 10)));
    assert_eq!(
        BlitOptions::new().with_slice9((-1, 4, 5, 6).into()).vertical_slice,
        Some(Slice::ternary(0, 4))
    );
}
