use blit::{
    geom::{Coordinate, Rect, Size},
    Blit, BlitBuffer, BlitOptions,
};

const SOURCE_SIZE: Size = Size {
    width: 20,
    height: 20,
};
const TARGET_SIZE: Size = Size {
    width: 100,
    height: 100,
};

#[test]
fn full() {
    let (source, mut target) = gen_buffers();

    // Draw without any changes, should be in the upper left
    source.blit(&mut target, TARGET_SIZE, &BlitOptions::new());

    assert_source_drawn(&source, Rect::new(0, 0, SOURCE_SIZE), &mut target, (0, 0));
}

#[test]
fn position() {
    let (source, mut target) = gen_buffers();

    // Draw at offset of 10 pixels
    source.blit(&mut target, TARGET_SIZE, &BlitOptions::new_position(10, 10));
    assert_source_drawn(&source, Rect::new(0, 0, SOURCE_SIZE), &mut target, (10, 10));
}

fn assert_source_drawn(source: &BlitBuffer, source_view: Rect, target: &[u32], target_offset: (i64, i64)) {
    let target_offset: Coordinate = target_offset.into();

    // The target view is the source view but with an offset
    let target_view = source_view + target_offset;

    // Verify the pixels match
    source_view
        .parent_ranges_iter(SOURCE_SIZE)
        .into_iter()
        .zip(target_view.parent_ranges_iter(TARGET_SIZE))
        .for_each(|(source_slice, target_slice)| {
            if source.pixels()[source_slice.clone()] != target[target_slice.clone()] {
                panic!("bytes mismatch at source range {source_slice:?} and target range {target_slice:?}");
            }
        });
}

fn gen_buffers() -> (BlitBuffer, Vec<u32>) {
    (
        BlitBuffer::from_iter(
            (0..SOURCE_SIZE.pixels() as u32).collect(),
            SOURCE_SIZE.width as i64,
            0,
        ),
        vec![0; TARGET_SIZE.pixels()],
    )
}
