//! Capability table: every kind's identifiers and metadata are consistent.

use elgato_streamdeck::info::{
    is_vendor_familiar, ImageMirroring, ImageMode, ImageRotation, Kind, AJAZZ_VENDOR_ID,
    ELGATO_VENDOR_ID, MIRABOX_VENDOR_ID, PID_STREAMDECK_ORIGINAL, PID_STREAMDECK_PLUS,
};

fn all_kinds() -> Vec<Kind> {
    vec![
        Kind::Original,
        Kind::OriginalV2,
        Kind::Mini,
        Kind::Xl,
        Kind::XlV2,
        Kind::Mk2,
        Kind::MiniMk2,
        Kind::Pedal,
        Kind::Plus,
        Kind::Neo,
        Kind::Akp153,
        Kind::Akp153E,
        Kind::Akp153R,
        Kind::Akp815,
        Kind::Akp03,
        Kind::Akp03E,
        Kind::Akp03R,
        Kind::MiraBoxHSV293S,
        Kind::MiraBoxDK0108D,
        Kind::MiraBoxE3EN,
    ]
}

#[test]
fn test_product_id_roundtrip() {
    for kind in all_kinds() {
        assert_eq!(Kind::from_pid(kind.product_id()), Some(kind));
        assert_eq!(Kind::from_vid_pid(kind.vendor_id(), kind.product_id()), Some(kind));
        assert!(is_vendor_familiar(&kind.vendor_id()));
    }
}

#[test]
fn test_unknown_identifiers_are_rejected() {
    assert_eq!(Kind::from_pid(0xffff), None);
    assert_eq!(Kind::from_vid_pid(0x1234, PID_STREAMDECK_ORIGINAL), None);
    // A familiar vendor with another maker's product ID resolves to nothing.
    assert_eq!(Kind::from_vid_pid(AJAZZ_VENDOR_ID, PID_STREAMDECK_PLUS), None);
    assert!(!is_vendor_familiar(&0x1234));
    assert!(is_vendor_familiar(&ELGATO_VENDOR_ID));
    assert!(is_vendor_familiar(&MIRABOX_VENDOR_ID));
}

#[test]
fn test_key_grid_counts() {
    for kind in all_kinds() {
        let (rows, cols) = kind.key_layout();
        assert_eq!(kind.key_count(), rows * cols);
        assert_eq!(rows, kind.row_count());
        assert_eq!(cols, kind.column_count());
    }
    assert_eq!(Kind::Original.key_count(), 15);
    assert_eq!(Kind::Mini.key_count(), 6);
    assert_eq!(Kind::Xl.key_count(), 32);
    assert_eq!(Kind::Pedal.key_count(), 3);
    assert_eq!(Kind::Plus.key_count(), 8);
    assert_eq!(Kind::Akp153.key_count(), 18);
    assert_eq!(Kind::Akp815.key_count(), 15);
    assert_eq!(Kind::Akp03.key_count(), 9);
}

#[test]
fn test_encoder_and_touchpoint_counts() {
    assert_eq!(Kind::Plus.encoder_count(), 4);
    assert_eq!(Kind::Akp03.encoder_count(), 3);
    assert_eq!(Kind::MiraBoxE3EN.encoder_count(), 3);
    assert_eq!(Kind::Original.encoder_count(), 0);
    assert_eq!(Kind::Neo.touchpoint_count(), 2);
    assert_eq!(Kind::Plus.touchpoint_count(), 0);
}

#[test]
fn test_lcd_strip_sizes() {
    assert_eq!(Kind::Plus.lcd_strip_size(), Some((800, 100)));
    assert_eq!(Kind::Neo.lcd_strip_size(), Some((248, 58)));
    assert_eq!(Kind::Original.lcd_strip_size(), None);
    assert_eq!(Kind::Akp153.lcd_strip_size(), Some((854, 480)));
}

#[test]
fn test_visibility_and_families() {
    assert!(!Kind::Pedal.is_visual());
    assert!(Kind::Original.is_visual());
    assert!(Kind::Akp153.is_mirabox_v1());
    assert!(!Kind::Akp153.is_mirabox_v2());
    assert!(Kind::Akp03.is_mirabox_v2());
    assert!(Kind::MiraBoxE3EN.is_mirabox_v2());
    assert!(Kind::Akp815.is_mirabox());
    assert!(!Kind::Xl.is_mirabox());
    assert!(Kind::Akp153.uses_pulse_buttons());
    assert!(!Kind::Plus.uses_pulse_buttons());
    assert!(Kind::Akp03E.uses_pulse_encoders());
    assert!(Kind::Akp03R.uses_pulse_encoders());
    assert!(!Kind::Akp03.uses_pulse_encoders());
}

#[test]
fn test_key_image_formats() {
    let original = Kind::Original.key_image_format();
    assert!(matches!(original.mode, ImageMode::BMP));
    assert_eq!(original.size, (72, 72));
    assert!(matches!(original.rotation, ImageRotation::Rot0));
    assert!(matches!(original.mirror, ImageMirroring::Both));

    let mini = Kind::Mini.key_image_format();
    assert!(matches!(mini.mode, ImageMode::BMP));
    assert_eq!(mini.size, (80, 80));
    assert!(matches!(mini.rotation, ImageRotation::Rot90));
    assert!(matches!(mini.mirror, ImageMirroring::Y));

    let plus = Kind::Plus.key_image_format();
    assert!(matches!(plus.mode, ImageMode::JPEG));
    assert_eq!(plus.size, (120, 120));
    assert!(matches!(plus.mirror, ImageMirroring::NoMirroring));

    let pedal = Kind::Pedal.key_image_format();
    assert!(matches!(pedal.mode, ImageMode::NoImage));
    assert_eq!(pedal.size, (0, 0));
}
