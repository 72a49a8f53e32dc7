//! Image pipeline: converted key images decode back to the declared key
//! size, and blank images are black.

use elgato_streamdeck::images::{convert_image, generate_blank_image, ImageData, ImageRect};
use elgato_streamdeck::info::{ImageMode, Kind};
use image::GenericImageView;

/// A small test image with distinct corner colors.
fn sample_image(width: u32, height: u32) -> ImageData {
    let mut pixels = Vec::new();
    for y in 0..height {
        for x in 0..width {
            let red = if x < width / 2 { 0xff } else { 0x00 };
            let blue = if y < height / 2 { 0xff } else { 0x00 };
            pixels.push(red);
            pixels.push(0x40);
            pixels.push(blue);
        }
    }
    ImageData::new(width, height, pixels).unwrap()
}

#[test]
fn test_image_data_validates_dimensions() {
    assert!(ImageData::new(2, 2, vec![0; 12]).is_some());
    assert!(ImageData::new(2, 2, vec![0; 11]).is_none());
    assert!(ImageData::new(0, 2, vec![]).is_none());
}

#[test]
fn test_convert_jpeg_kind_decodes_to_declared_size() {
    let image = sample_image(10, 6);
    for kind in [Kind::XlV2, Kind::Plus, Kind::Akp153] {
        let data = convert_image(kind, &image).unwrap();
        let decoded = image::load_from_memory(&data).unwrap();
        let (w, h) = kind.key_image_format().size;
        assert_eq!(decoded.dimensions(), (w as u32, h as u32));
    }
}

#[test]
fn test_convert_bmp_kind_decodes_to_declared_size() {
    let image = sample_image(9, 9);
    // The Original encodes BMP at 72 by 72; the Mini rotates a square image,
    // so its output stays 80 by 80.
    for kind in [Kind::Original, Kind::Mini] {
        let data = convert_image(kind, &image).unwrap();
        let decoded = image::load_from_memory(&data).unwrap();
        let (w, h) = kind.key_image_format().size;
        assert_eq!(decoded.dimensions(), (w as u32, h as u32));
    }
}

#[test]
fn test_convert_applies_mirroring() {
    // The XL mirrors both axes: a half-red source comes back with the red
    // half on the other side.
    let image = sample_image(10, 10);
    let data = convert_image(Kind::XlV2, &image).unwrap();
    let decoded = image::load_from_memory(&data).unwrap().into_rgb8();
    let left = decoded.get_pixel(10, 48).0;
    let right = decoded.get_pixel(85, 48).0;
    // The source is red on the left; mirrored output is red on the right.
    assert!(right[0] > 0x80, "expected red on the right, got {:?}", right);
    assert!(left[0] < 0x80, "expected dark on the left, got {:?}", left);
}

#[test]
fn test_convert_no_image_kind_yields_empty() {
    let image = sample_image(4, 4);
    let data = convert_image(Kind::Pedal, &image).unwrap();
    assert!(data.is_empty());
}

#[test]
fn test_blank_image_is_black() {
    let data = generate_blank_image(Kind::Original).unwrap();
    assert!(matches!(Kind::Original.key_image_format().mode, ImageMode::BMP));
    let decoded = image::load_from_memory(&data).unwrap().into_rgb8();
    assert_eq!(decoded.dimensions(), (72, 72));
    for pixel in decoded.pixels() {
        assert_eq!(pixel.0, [0, 0, 0]);
    }
}

#[test]
fn test_blank_image_no_screen_is_empty() {
    assert!(generate_blank_image(Kind::Pedal).unwrap().is_empty());
}

#[test]
fn test_image_rect_keeps_dimensions() {
    let image = sample_image(12, 8);
    let rect = ImageRect::from_image(&image).unwrap();
    assert_eq!(rect.w, 12);
    assert_eq!(rect.h, 8);
    let decoded = image::load_from_memory(&rect.data).unwrap();
    assert_eq!(decoded.dimensions(), (12, 8));
}
