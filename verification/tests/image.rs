use blit::geom::Size;
use blit::image::{ChannelImage, Channels};
use blit::pixel::{binarize, color_from_u64, mask_pixel};
use blit::ToBlitBuffer;

fn pixel(r: u64, g: u64, b: u64, a: u64) -> Channels {
    Channels { r, g, b, a }
}

#[test]
fn packs_channels() {
    assert_eq!(color_from_u64(0x12, 0x34, 0x56, 0x78), 0x12_34_56_78);
    assert_eq!(color_from_u64(0, 0, 0, 0), 0);
    // Channels of more than 8 bits run into each other and lose what is above 32 bits
    assert_eq!(color_from_u64(0x1FF, 0, 0, 0x1_00), 0xFF_00_01_00);
}

#[test]
fn binarizes_alpha() {
    assert_eq!(binarize(0x7E_00_00_01, 0x7F), 0);
    assert_eq!(binarize(0x7F_00_00_01, 0x7F), 0xFF_00_00_01);
    assert_eq!(binarize(0x00_AB_CD_EF, 0), 0xFF_AB_CD_EF);
    assert_eq!(binarize(0xFE_FF_FF_FF, 0xFF), 0);
}

#[test]
fn masks_one_color() {
    assert_eq!(mask_pixel(0xFF, 0x00, 0xFF, 0xFF_00_FF), 0);
    assert_eq!(mask_pixel(0xFF, 0x00, 0xFF, 0x12_FF_00_FF), 0);
    assert_eq!(mask_pixel(0xFF, 0x01, 0xFF, 0xFF_00_FF), 0xFF_FF_01_FF);
}

#[test]
fn image_with_mask_color() {
    let image = ChannelImage {
        width: 2,
        pixels: vec![
            pixel(0xFF, 0x00, 0xFF, 0xFF),
            pixel(0x01, 0x02, 0x03, 0x00),
            pixel(0x00, 0x00, 0x00, 0xFF),
            pixel(0xFF, 0x00, 0xFF, 0x00),
        ],
    };
    let buffer = image.to_blit_buffer_with_mask_color(0xFF_00_FF);
    assert_eq!(buffer.size(), Size::new(2, 2));
    assert_eq!(buffer.pixels(), [0, 0xFF_01_02_03, 0xFF_00_00_00, 0]);
}

#[test]
fn image_with_alpha() {
    let image = ChannelImage {
        width: 3,
        pixels: vec![
            pixel(0x0A, 0x0B, 0x0C, 0x7F),
            pixel(0x0A, 0x0B, 0x0C, 0x80),
            pixel(0x0A, 0x0B, 0x0C, 0xFF),
            pixel(0x01, 0x01, 0x01, 0xFF),
        ],
    };
    let buffer = image.to_blit_buffer_with_alpha(0x80);
    // The fourth pixel does not fill a row
    assert_eq!(buffer.size(), Size::new(3, 1));
    assert_eq!(buffer.pixels(), [0, 0xFF_0A_0B_0C, 0xFF_0A_0B_0C]);
}
