use blit::slice::{BinarySection, Slice, SliceProjection};

#[test]
fn slice9() {
    let (horizontal_slice, vertical_slice) = (Slice::ternary(10, 20), Slice::ternary(25, 50));

    let horizontal_projs = horizontal_slice.divide_area_iter(30, 100);
    let vertical_projs = vertical_slice.divide_area_iter(75, 150);
    assert_eq!(
        horizontal_projs,
        [
            SliceProjection::new(0, 10, 0, 10),
            SliceProjection::new(10, 20, 10, 90),
            SliceProjection::new(20, 30, 90, 100)
        ]
    );

    assert_eq!(
        vertical_projs,
        [
            SliceProjection::new(0, 25, 0, 25),
            SliceProjection::new(25, 50, 25, 125),
            SliceProjection::new(50, 75, 125, 150)
        ]
    );

    // Test mapping to subrectangles
    assert_eq!(
        SliceProjection::combine_into_sub_rects(&horizontal_projs[0], &vertical_projs[0]),
        ((0, 0, 10, 25).into(), (0, 0, 10, 25).into())
    );
    assert_eq!(
        SliceProjection::combine_into_sub_rects(&horizontal_projs[1], &vertical_projs[1]),
        ((10, 25, 10, 25).into(), (10, 25, 80, 100).into())
    );
    assert_eq!(
        SliceProjection::combine_into_sub_rects(&horizontal_projs[2], &vertical_projs[2]),
        ((20, 50, 10, 25).into(), (90, 125, 10, 25).into())
    );

    assert_eq!(
        horizontal_projs[0].clone().into_sub_rects_static_y(25),
        ((0, 0, 10, 25).into(), (0, 0, 10, 25).into())
    );
    assert_eq!(
        horizontal_projs[1].clone().into_sub_rects_static_y(25),
        ((10, 0, 10, 25).into(), (10, 0, 80, 25).into())
    );
    assert_eq!(
        horizontal_projs[2].clone().into_sub_rects_static_y(25),
        ((20, 0, 10, 25).into(), (90, 0, 10, 25).into())
    );

    assert_eq!(
        vertical_projs[0].clone().into_sub_rects_static_x(10),
        ((0, 0, 10, 25).into(), (0, 0, 10, 25).into())
    );
    assert_eq!(
        vertical_projs[1].clone().into_sub_rects_static_x(10),
        ((0, 25, 10, 25).into(), (0, 25, 10, 100).into())
    );
    assert_eq!(
        vertical_projs[2].clone().into_sub_rects_static_x(10),
        ((0, 50, 10, 25).into(), (0, 125, 10, 25).into())
    );
}

fn totals(projections: &[SliceProjection]) -> (u32, u32) {
    let mut source = 0;
    let mut target = 0;
    for projection in projections {
        source += projection.source_amount();
        target += projection.target_amount();
    }
    (source, target)
}

#[test]
fn ternary_conserves_both_lengths_when_it_grows() {
    for target in 21..60 {
        let projections = Slice::ternary(10, 20).divide_area_iter(30, target);
        assert_eq!(totals(&projections), (30, target));
    }
}

#[test]
fn ternary_drops_the_middle_when_it_shrinks() {
    // The target has room for the last part and for half of the first
    let projections = Slice::ternary(10, 20).divide_area_iter(30, 15);
    assert_eq!(
        projections,
        [
            SliceProjection::new(0, 10, 0, 5),
            SliceProjection::new(20, 30, 5, 15)
        ]
    );
    assert_eq!(totals(&projections), (20, 15));
}

#[test]
fn ternary_with_nothing_to_draw() {
    assert_eq!(Slice::ternary(10, 20).divide_area_iter(30, 0), []);
    assert_eq!(Slice::ternary(0, 0).divide_area_iter(0, 0), []);
}

#[test]
fn ternary_with_splits_out_of_order() {
    // The splits are put in order and inside the source first
    let projections = Slice::ternary(40, 5).divide_area_iter(30, 100);
    assert_eq!(projections, [SliceProjection::new(0, 30, 0, 30)]);
}

#[test]
fn binary_first_keeps_the_last_part() {
    // The last part is 10 long in the source and stays so
    assert_eq!(
        Slice::binary_first(20).divide_area_iter(30, 100),
        [
            SliceProjection::new(0, 20, 0, 90),
            SliceProjection::new(20, 30, 90, 100)
        ]
    );
    // No room for the first part
    assert_eq!(
        Slice::binary_first(20).divide_area_iter(30, 8),
        [SliceProjection::new(20, 30, 0, 8)]
    );
}

#[test]
fn binary_last_keeps_the_first_part() {
    assert_eq!(
        Slice::binary_last(20).divide_area_iter(30, 100),
        [
            SliceProjection::new(0, 20, 0, 20),
            SliceProjection::new(20, 30, 20, 100)
        ]
    );
    // The first part ends with the target
    assert_eq!(
        Slice::binary_last(20).divide_area_iter(30, 8),
        [SliceProjection::new(0, 20, 0, 8)]
    );
}

#[test]
fn slice_constructors() {
    assert_eq!(
        Slice::binary_first(-1),
        Slice::Binary {
            split: 0,
            repeat: BinarySection::First
        }
    );
    assert_eq!(
        Slice::binary_last(7),
        Slice::Binary {
            split: 7,
            repeat: BinarySection::Last
        }
    );
    assert_eq!(
        Slice::ternary(3, 1 << 40),
        Slice::Ternary {
            split_first: 3,
            split_last: 0
        }
    );
}
