//! Report codec: exact report bytes, paging counts, flags and payload
//! round trips.

use elgato_streamdeck::info::Kind;
use elgato_streamdeck::reports::{
    brightness_report, clamp_percent, command_pages, mirabox_bat_packet, mirabox_cle_packet,
    mirabox_command_packet, reset_report, touchpoint_color_report, MiraBoxCommand, PagedCommand,
    WriteImageParameters,
};
use elgato_streamdeck::StreamDeckError;

#[test]
fn test_brightness_report_legacy() {
    let report = brightness_report(Kind::Original, 42);
    assert_eq!(report.len(), 17);
    assert_eq!(&report[..6], &[0x05, 0x55, 0xaa, 0xd1, 0x01, 42]);
    assert!(report[6..].iter().all(|b| *b == 0));
}

#[test]
fn test_brightness_report_v2() {
    let report = brightness_report(Kind::XlV2, 77);
    assert_eq!(report.len(), 32);
    assert_eq!(&report[..3], &[0x03, 0x08, 77]);
    assert!(report[3..].iter().all(|b| *b == 0));
}

#[test]
fn test_brightness_report_mirabox() {
    let report = brightness_report(Kind::Akp153, 55);
    assert_eq!(report.len(), 513);
    assert_eq!(
        &report[..12],
        &[0x00, 0x43, 0x52, 0x54, 0x00, 0x00, 0x4c, 0x49, 0x47, 0x00, 0x00, 55]
    );
    assert!(report[12..].iter().all(|b| *b == 0));

    let v2 = brightness_report(Kind::Akp03, 55);
    assert_eq!(v2.len(), 1025);
}

#[test]
fn test_brightness_clamps() {
    // Brightness clamping: 150 produces exactly the bytes 100 produces, and
    // zero is accepted as-is.
    assert_eq!(clamp_percent(150), 100);
    assert_eq!(clamp_percent(100), 100);
    assert_eq!(clamp_percent(0), 0);
    for kind in [Kind::Original, Kind::XlV2, Kind::Akp153] {
        assert_eq!(
            brightness_report(kind, clamp_percent(150)),
            brightness_report(kind, clamp_percent(100))
        );
        assert_eq!(brightness_report(kind, clamp_percent(0))[..], brightness_report(kind, 0)[..]);
    }
}

#[test]
fn test_reset_report_bytes() {
    let legacy = reset_report(Kind::Mini);
    assert_eq!(legacy.len(), 17);
    assert_eq!(&legacy[..2], &[0x0b, 0x63]);
    let v2 = reset_report(Kind::Plus);
    assert_eq!(v2.len(), 32);
    assert_eq!(&v2[..2], &[0x03, 0x02]);
}

#[test]
fn test_mirabox_packets() {
    let stp = mirabox_command_packet(Kind::Akp153, MiraBoxCommand::Commit);
    assert_eq!(stp.len(), 513);
    assert_eq!(&stp[..9], &[0x00, 0x43, 0x52, 0x54, 0x00, 0x00, 0x53, 0x54, 0x50]);

    let sleep = mirabox_command_packet(Kind::Akp03, MiraBoxCommand::Sleep);
    assert_eq!(sleep.len(), 1025);
    assert_eq!(&sleep[..9], &[0x00, 0x43, 0x52, 0x54, 0x00, 0x00, 0x48, 0x41, 0x4e]);

    let bat = mirabox_bat_packet(Kind::Akp153, 4, 0x1234);
    assert_eq!(bat.len(), 513);
    assert_eq!(
        &bat[..14],
        &[0x00, 0x43, 0x52, 0x54, 0x00, 0x00, 0x42, 0x41, 0x54, 0x00, 0x00, 0x12, 0x34, 5]
    );

    let cle = mirabox_cle_packet(Kind::Akp153, 7);
    assert_eq!(&cle[..13], &[0x00, 0x43, 0x52, 0x54, 0x00, 0x00, 0x43, 0x4c, 0x45, 0, 0, 0, 8]);
    let cle_all = mirabox_cle_packet(Kind::Akp153, 0xff);
    assert_eq!(cle_all[12], 0xff);
}

#[test]
fn test_touchpoint_color_report_bytes() {
    let report = touchpoint_color_report(9, 10, 20, 30);
    assert_eq!(report, vec![0x03, 0x06, 9, 10, 20, 30]);
}

#[test]
fn test_write_image_parameters() {
    let v2 = WriteImageParameters::for_key(Kind::XlV2, 5000);
    assert_eq!(v2.image_report_length, 1024);
    assert_eq!(v2.image_report_payload_length, 1016);

    let mini = WriteImageParameters::for_key(Kind::Mini, 5000);
    assert_eq!(mini.image_report_length, 1024);
    assert_eq!(mini.image_report_payload_length, 1008);

    let original = WriteImageParameters::for_key(Kind::Original, 5000);
    assert_eq!(original.image_report_length, 8191);
    assert_eq!(original.image_report_payload_length, 2500);

    let mirabox = WriteImageParameters::for_key(Kind::Akp153, 5000);
    assert_eq!(mirabox.image_report_length, 513);
    assert_eq!(mirabox.image_report_payload_length, 512);

    let v2_mirabox = WriteImageParameters::for_key(Kind::Akp03, 5000);
    assert_eq!(v2_mirabox.image_report_length, 1025);
    assert_eq!(v2_mirabox.image_report_payload_length, 1024);
}

#[test]
fn test_key_image_paging_roundtrip() {
    // 2000 payload bytes with a 1016-byte page: two pages, only the second
    // flagged last, and the payload chunks concatenate back to the payload.
    let payload: Vec<u8> = (0..2000u32).map(|i| (i % 251) as u8).collect();
    let pages = command_pages(PagedCommand::KeyImage(Kind::XlV2, 7), &payload).unwrap();
    assert_eq!(pages.len(), 2);

    for (number, page) in pages.iter().enumerate() {
        assert_eq!(page.len(), 1024);
        assert_eq!(page[0], 0x02);
        assert_eq!(page[1], 0x07);
        assert_eq!(page[2], 7);
        let last = number + 1 == pages.len();
        assert_eq!(page[3], if last { 1 } else { 0 });
        assert_eq!(page[6], (number & 0xff) as u8);
        assert_eq!(page[7], (number >> 8) as u8);
    }
    assert_eq!(u16::from_le_bytes([pages[0][4], pages[0][5]]), 1016);
    assert_eq!(u16::from_le_bytes([pages[1][4], pages[1][5]]), 984);

    let mut collected: Vec<u8> = Vec::new();
    collected.extend_from_slice(&pages[0][8..8 + 1016]);
    collected.extend_from_slice(&pages[1][8..8 + 984]);
    assert_eq!(collected, payload);
    assert!(pages[1][8 + 984..].iter().all(|b| *b == 0));
}

#[test]
fn test_key_image_page_count_is_ceiling() {
    // Page size 1016: 1016 bytes fit one page, 1017 need two.
    let exact: Vec<u8> = vec![7; 1016];
    assert_eq!(command_pages(PagedCommand::KeyImage(Kind::XlV2, 0), &exact).unwrap().len(), 1);
    let spill: Vec<u8> = vec![7; 1017];
    assert_eq!(command_pages(PagedCommand::KeyImage(Kind::XlV2, 0), &spill).unwrap().len(), 2);
    let empty: Vec<u8> = Vec::new();
    assert_eq!(command_pages(PagedCommand::KeyImage(Kind::XlV2, 0), &empty).unwrap().len(), 0);
}

#[test]
fn test_key_image_pages_original_halves() {
    // The first-revision deck sends exactly two halves with one-based page
    // numbers and one-based key addressing.
    let payload: Vec<u8> = (0..100u32).map(|i| i as u8).collect();
    let pages = command_pages(PagedCommand::KeyImage(Kind::Original, 3), &payload).unwrap();
    assert_eq!(pages.len(), 2);
    assert_eq!(pages[0].len(), 8191);
    assert_eq!(&pages[0][..6], &[0x02, 0x01, 1, 0, 0, 4]);
    assert_eq!(&pages[1][..6], &[0x02, 0x01, 2, 0, 1, 4]);
    assert_eq!(&pages[0][16..16 + 50], &payload[..50]);
    assert_eq!(&pages[1][16..16 + 50], &payload[50..]);
}

#[test]
fn test_key_image_pages_original_oversized_fails() {
    // A payload whose half no longer fits the fixed report length is refused.
    let payload: Vec<u8> = vec![0; 20000];
    let r = command_pages(PagedCommand::KeyImage(Kind::Original, 0), &payload);
    assert_eq!(r.unwrap_err(), StreamDeckError::ImageError);
}

#[test]
fn test_mirabox_image_pages() {
    let payload: Vec<u8> = (0..600u32).map(|i| i as u8).collect();
    let pages = command_pages(PagedCommand::KeyImage(Kind::Akp153, 2), &payload).unwrap();
    assert_eq!(pages.len(), 2);
    assert_eq!(pages[0].len(), 513);
    assert_eq!(pages[0][0], 0x00);
    assert_eq!(&pages[0][1..513], &payload[..512]);
    assert_eq!(&pages[1][1..89], &payload[512..]);
    assert!(pages[1][89..].iter().all(|b| *b == 0));
}

#[test]
fn test_lcd_region_pages() {
    let payload: Vec<u8> = (0..1200u32).map(|i| (i % 199) as u8).collect();
    let pages = command_pages(PagedCommand::LcdRegion(100, 50, 200, 100), &payload).unwrap();
    assert_eq!(pages.len(), 2);
    let first = &pages[0];
    assert_eq!(first.len(), 1024);
    assert_eq!(&first[..2], &[0x02, 0x0c]);
    assert_eq!(u16::from_le_bytes([first[2], first[3]]), 100);
    assert_eq!(u16::from_le_bytes([first[4], first[5]]), 50);
    assert_eq!(u16::from_le_bytes([first[6], first[7]]), 200);
    assert_eq!(u16::from_le_bytes([first[8], first[9]]), 100);
    assert_eq!(first[10], 0);
    assert_eq!(u16::from_le_bytes([first[11], first[12]]), 0);
    assert_eq!(u16::from_le_bytes([first[13], first[14]]), 1008);
    let second = &pages[1];
    assert_eq!(second[10], 1);
    assert_eq!(u16::from_le_bytes([second[11], second[12]]), 1);
    assert_eq!(u16::from_le_bytes([second[13], second[14]]), 192);
    assert_eq!(&first[16..16 + 1008], &payload[..1008]);
    assert_eq!(&second[16..16 + 192], &payload[1008..]);
}

#[test]
fn test_lcd_fill_neo_pages() {
    let payload: Vec<u8> = vec![9; 1016];
    let pages = command_pages(PagedCommand::LcdFillNeo, &payload).unwrap();
    assert_eq!(pages.len(), 1);
    let page = &pages[0];
    assert_eq!(page.len(), 1024);
    assert_eq!(&page[..4], &[0x02, 0x0b, 0, 1]);
    assert_eq!(u16::from_le_bytes([page[4], page[5]]), 1016);
    assert_eq!(u16::from_le_bytes([page[6], page[7]]), 0);
    assert_eq!(&page[8..], &payload[..]);
}

#[test]
fn test_logo_pages() {
    let payload: Vec<u8> = vec![3; 1030];
    let pages = command_pages(PagedCommand::Logo(Kind::Akp153), &payload).unwrap();
    assert_eq!(pages.len(), 3);
    assert_eq!(pages[0].len(), 513);
    assert_eq!(pages[0][0], 0x00);
    assert_eq!(&pages[0][1..], &payload[..512]);
    assert_eq!(&pages[2][1..7], &payload[1024..]);
}
