use blit::geom::{Coordinate, Rect, Size};

#[test]
fn rect_shift() {
    let rect = Rect::new(10, 10, (10, 10).into());
    assert_eq!(
        rect.shift(15, 15),
        ((0, 0).into(), Rect::new(15, 15, (5, 5).into()))
    );
    assert_eq!(
        rect.shift(5, 5),
        ((5, 5).into(), Rect::new(10, 10, (5, 5).into()))
    );

    // Must be clipped when outside of bounds, we don't care about UVs in this case
    assert_eq!(rect.shift(20, 20).1, Rect::new(20, 20, (0, 0).into()));
    assert_eq!(rect.shift(0, 0).1, Rect::new(10, 10, (0, 0).into()));
    assert_eq!(rect.shift(-5, -5).1, Rect::new(10, 10, (0, 0).into()));
}

#[test]
fn coordinate_falls_back_to_zero() {
    assert_eq!(Coordinate::new(1 << 40, -7), Coordinate { x: 0, y: -7 });
    assert_eq!(Size::new(-1, 12), Size { width: 0, height: 12 });
    assert_eq!(Size::new(1 << 32, 3), Size { width: 0, height: 3 });
}

#[test]
fn coordinate_rem_euclid() {
    let c = Coordinate { x: -7, y: 7 };
    assert_eq!(c.rem_euclid(Coordinate { x: 3, y: -3 }), Coordinate { x: 2, y: 1 });
    assert_eq!(c % Coordinate { x: 3, y: -3 }, Coordinate { x: -1, y: 1 });
    assert_eq!(
        Coordinate { x: i32::MIN, y: 5 }.rem_euclid(Coordinate { x: -1, y: 5 }),
        Coordinate { x: 0, y: 0 }
    );
}

#[test]
fn coordinate_operators() {
    let a = Coordinate { x: 3, y: -4 };
    let b = Coordinate { x: 10, y: 20 };
    assert_eq!(a + b, Coordinate { x: 13, y: 16 });
    assert_eq!(a - b, Coordinate { x: -7, y: -24 });
    assert_eq!(a * b, Coordinate { x: 30, y: -80 });
    let mut c = a;
    c.add_assign(b);
    assert_eq!(c, Coordinate { x: 13, y: 16 });
    assert_eq!(Coordinate::from_tuple((1, 2)).as_tuple(), (1, 2));
    assert_eq!(Coordinate::from(Size { width: 4, height: 5 }), Coordinate { x: 4, y: 5 });
}

#[test]
fn size_operators() {
    let a = Size { width: 12, height: 20 };
    let b = Size { width: 5, height: 4 };
    assert_eq!(a + b, Size { width: 17, height: 24 });
    assert_eq!(a - b, Size { width: 7, height: 16 });
    assert_eq!(a * b, Size { width: 60, height: 80 });
    assert_eq!(a / b, Size { width: 2, height: 5 });
    assert_eq!(a % b, Size { width: 2, height: 0 });
    assert_eq!(a * 3, Size { width: 36, height: 60 });
    assert_eq!(a * -3, a);
    assert_eq!(a / 4, Size { width: 3, height: 5 });
    assert_eq!(a / -4, a);
    assert_eq!(a % 5, Size { width: 2, height: 0 });
    assert_eq!(a.min(b), b);
    assert_eq!(a.rem_euclid(b), Size { width: 2, height: 0 });
    assert_eq!(a.pixels(), 240);
    assert_eq!(a.as_tuple(), (12, 20));
    assert_eq!(Size::from_tuple((12, 20)), a);
    assert_eq!(a.as_coordinate(), Coordinate { x: 12, y: 20 });
    assert_eq!(Size::from_len(13, 4), Size { width: 4, height: 3 });
}

#[test]
fn size_coord_iter() {
    let coords = Size { width: 2, height: 2 }.coord_iter();
    assert_eq!(
        coords,
        vec![
            Coordinate { x: 0, y: 0 },
            Coordinate { x: 1, y: 0 },
            Coordinate { x: 0, y: 1 },
            Coordinate { x: 1, y: 1 }
        ]
    );
}

#[test]
fn rect_accessors() {
    let rect = Rect::new(-3, 4, Size::new(10, 20));
    assert_eq!(rect.width(), 10);
    assert_eq!(rect.height(), 20);
    assert_eq!(rect.size(), Size { width: 10, height: 20 });
    assert_eq!(rect.right(), 7);
    assert_eq!(rect.bottom(), 24);
    assert_eq!(rect.coord(), Coordinate { x: -3, y: 4 });
    assert_eq!(rect.as_slice(), (-3, 4, 10, 20));
    assert_eq!(Rect::from_size(Size::new(2, 3)), Rect::new(0, 0, Size::new(2, 3)));
    assert_eq!(Rect::zero(), Rect::new(0, 0, Size::new(0, 0)));
    assert_eq!(Rect::from((1, 2, 3, 4)), Rect::new(1, 2, Size::new(3, 4)));
    assert_eq!(
        rect + Coordinate { x: 3, y: -4 },
        Rect::new(0, 0, Size::new(10, 20))
    );
}

#[test]
fn rect_parent_ranges_clamp_negative_position() {
    let rect = Rect::new(-3, 1, Size::new(4, 2));
    assert_eq!(
        rect.parent_ranges_iter(Size::new(10, 10)),
        vec![10..14, 20..24]
    );
}
