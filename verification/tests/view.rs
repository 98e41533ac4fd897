use blit::geom::{Rect, Size};
use blit::view::ImageView;

#[test]
fn cull() {
    // Fully outside
    assert_eq!(
        ImageView::new((-10, 0, 10, 10).into(), (0, 0, 100, 100).into()),
        None
    );
    assert_eq!(
        ImageView::new((0, -10, 10, 10).into(), (0, 0, 100, 100).into()),
        None
    );
    assert_eq!(
        ImageView::new((100, 0, 10, 10).into(), (0, 0, 100, 100).into()),
        None
    );
    assert_eq!(
        ImageView::new((0, 100, 10, 10).into(), (0, 0, 100, 100).into()),
        None
    );
    assert_eq!(
        ImageView::new((0, 0, 10, 10).into(), (10, 0, 100, 100).into()),
        None
    );
    assert_eq!(
        ImageView::new((0, 0, 10, 10).into(), (0, 10, 100, 100).into()),
        None
    );
    assert_eq!(
        ImageView::new((110, 0, 10, 10).into(), (10, 0, 100, 100).into()),
        None
    );
    assert_eq!(
        ImageView::new((0, 110, 10, 10).into(), (0, 10, 100, 100).into()),
        None
    );
}

#[test]
fn clip() {
    // Clip left
    assert_eq!(
        ImageView::new((-5, 0, 10, 10).into(), (0, 0, 100, 100).into()),
        Some(ImageView::new_unchecked(0, 0, Size::new(5, 10)))
    );
    // Clip top
    assert_eq!(
        ImageView::new((0, -5, 10, 10).into(), (0, 0, 100, 100).into()),
        Some(ImageView::new_unchecked(0, 0, Size::new(10, 5)))
    );
    // Clip right
    assert_eq!(
        ImageView::new((95, 0, 10, 10).into(), (0, 0, 100, 100).into()),
        Some(ImageView::new_unchecked(95, 0, Size::new(5, 10)))
    );
    // Clip bottom
    assert_eq!(
        ImageView::new((0, 95, 10, 10).into(), (0, 0, 100, 100).into()),
        Some(ImageView::new_unchecked(0, 95, Size::new(10, 5)))
    );
}

#[test]
fn clip_fn() {
    assert_eq!(
        ImageView::new_unchecked(10, 10, Size::new(40, 40))
            .clip(ImageView::new_unchecked(20, 20, Size::new(20, 20)).into()),
        ImageView::new_unchecked(20, 20, Size::new(20, 20))
    );
}

#[test]
fn parent_ranges() {
    // Top left corner
    assert_eq!(
        ImageView::new_unchecked(0, 0, Size::new(10, 3)).parent_ranges_iter(Size::new(100, 100)),
        vec![0..10, 100..110, 200..210]
    );

    // With some offset in the center
    assert_eq!(
        ImageView::new_unchecked(10, 10, Size::new(10, 3)).parent_ranges_iter(Size::new(100, 100)),
        vec![1010..1020, 1110..1120, 1210..1220]
    );
}

#[test]
fn view_stays_inside_parent_when_both_sides_stick_out() {
    // The target is wider than the parent on both sides
    assert_eq!(
        ImageView::new((-5, -5, 200, 200).into(), (0, 0, 100, 100).into()),
        Some(ImageView::new_unchecked(0, 0, Size::new(100, 100)))
    );
    // A parent that does not start at zero
    assert_eq!(
        ImageView::new((0, 0, 50, 50).into(), (10, 20, 100, 100).into()),
        Some(ImageView::new_unchecked(10, 20, Size::new(40, 30)))
    );
}

#[test]
fn view_of_nothing() {
    // Zero sized targets or parents show no pixel
    assert_eq!(
        ImageView::new((5, 5, 0, 10).into(), (0, 0, 100, 100).into()),
        None
    );
    assert_eq!(
        ImageView::new((5, 5, 10, 0).into(), (0, 0, 100, 100).into()),
        None
    );
    assert_eq!(
        ImageView::new((-5, -5, 10, 10).into(), (0, 0, 0, 0).into()),
        None
    );
}

#[test]
fn view_accessors() {
    let view = ImageView::full(Size::new(7, 9));
    assert_eq!(view.size(), Size::new(7, 9));
    assert_eq!(view.width(), 7);
    assert_eq!(view.height(), 9);
    assert_eq!(view.coord(), (0, 0));
    assert_eq!(view.as_sub_rect(), Rect::new(0, 0, Size::new(7, 9)));
    assert_eq!(
        view.sub((5, 6, 10, 10).into()),
        Some(ImageView::new_unchecked(5, 6, Size::new(2, 3)))
    );
    assert_eq!(view.sub((7, 0, 1, 1).into()), None);
}

#[test]
fn sub_with_negative_position_shortens_first() {
    let view = ImageView::full(Size::new(100, 100));
    // Nothing sticks out
    assert_eq!(
        view.sub_i32(5, 5, Size::new(10, 10)),
        Some(ImageView::new_unchecked(5, 5, Size::new(10, 10)))
    );
    // Three pixels stick out: seven are left, of which three more lie before the view
    assert_eq!(
        view.sub_i32(-3, 0, Size::new(10, 10)),
        Some(ImageView::new_unchecked(0, 0, Size::new(4, 10)))
    );
    // Half of it sticks out: what is left lies before the view
    assert_eq!(view.sub_i32(-5, -5, Size::new(10, 10)), None);
}

#[test]
fn clip_leaves_nothing() {
    let view = ImageView::new_unchecked(10, 10, Size::new(10, 10));
    let clipped = view.clip((30, 0, 10, 100).into());
    assert_eq!(clipped.width(), 0);
    assert_eq!(clipped.height(), 10);
    assert_eq!(clipped.coord(), (30, 10));
}

#[test]
fn shift_keeps_the_far_edges() {
    let view = ImageView::new_unchecked(10, 10, Size::new(10, 10));
    let (shifted, uv) = view.shift(15, 5);
    assert_eq!(shifted, ImageView::new_unchecked(15, 10, Size::new(5, 5)));
    assert_eq!(uv, (0, 5).into());
}
