//! Device enumeration filtering: vendor gating, kind resolution, serial
//! requirements and deduplication.

use elgato_streamdeck::info::{Kind, AJAZZ_VENDOR_ID, ELGATO_VENDOR_ID};
use elgato_streamdeck::resolve_devices;

#[test]
fn test_resolve_devices_filters_and_dedups() {
    let entries: Vec<(u16, u16, String)> = vec![
        // A recognized deck with a serial.
        (ELGATO_VENDOR_ID, Kind::Mk2.product_id(), "AA11".to_string()),
        // The same device enumerated twice: kept once.
        (ELGATO_VENDOR_ID, Kind::Mk2.product_id(), "AA11".to_string()),
        // Same kind, different serial: a second device.
        (ELGATO_VENDOR_ID, Kind::Mk2.product_id(), "BB22".to_string()),
        // A foreign vendor is ignored even with a known product ID.
        (0x1111, Kind::Mk2.product_id(), "CC33".to_string()),
        // A familiar vendor with an unknown product is ignored.
        (ELGATO_VENDOR_ID, 0x7777, "DD44".to_string()),
        // A missing serial (the empty string) is dropped.
        (ELGATO_VENDOR_ID, Kind::Xl.product_id(), "".to_string()),
        // An Ajazz device resolves through its own vendor ID.
        (AJAZZ_VENDOR_ID, Kind::Akp153.product_id(), "EE55".to_string()),
        // A product ID of one vendor under another familiar vendor is ignored.
        (AJAZZ_VENDOR_ID, Kind::Mk2.product_id(), "FF66".to_string()),
    ];

    let devices = resolve_devices(&entries);
    assert_eq!(
        devices,
        vec![
            (Kind::Mk2, "AA11".to_string()),
            (Kind::Mk2, "BB22".to_string()),
            (Kind::Akp153, "EE55".to_string()),
        ]
    );
}

#[test]
fn test_resolve_devices_empty() {
    let entries: Vec<(u16, u16, String)> = vec![];
    assert_eq!(resolve_devices(&entries), vec![]);
}
