//! Key index mappers: exact values, round trips and pass-through behavior.

use elgato_streamdeck::info::Kind;
use elgato_streamdeck::util::{
    ajazz153_to_elgato_input, elgato_to_ajazz153, flip_key_index, inverse_key_index,
};

#[test]
fn test_ajazz153_table_values() {
    let kind = Kind::Akp153;
    let forward: Vec<u8> = (0..18).map(|k| elgato_to_ajazz153(&kind, k)).collect();
    assert_eq!(forward, vec![12, 9, 6, 3, 0, 15, 13, 10, 7, 4, 1, 16, 14, 11, 8, 5, 2, 17]);
    let backward: Vec<u8> = (0..18).map(|k| ajazz153_to_elgato_input(&kind, k)).collect();
    assert_eq!(backward, vec![4, 10, 16, 3, 9, 15, 2, 8, 14, 1, 7, 13, 0, 6, 12, 5, 11, 17]);
}

#[test]
fn test_ajazz153_roundtrip() {
    for kind in [Kind::Akp153, Kind::Akp153E, Kind::Akp153R, Kind::MiraBoxHSV293S] {
        for key in 0..kind.key_count() {
            assert_eq!(ajazz153_to_elgato_input(&kind, elgato_to_ajazz153(&kind, key)), key);
            assert_eq!(elgato_to_ajazz153(&kind, ajazz153_to_elgato_input(&kind, key)), key);
        }
    }
}

#[test]
fn test_ajazz153_passthrough() {
    let kind = Kind::Akp153;
    assert_eq!(elgato_to_ajazz153(&kind, 18), 18);
    assert_eq!(elgato_to_ajazz153(&kind, 0xff), 0xff);
    assert_eq!(ajazz153_to_elgato_input(&kind, 0xff), 0xff);
}

#[test]
fn test_inverse_key_index_involution() {
    for kind in [Kind::Akp815, Kind::Original, Kind::Xl] {
        for key in 0..kind.key_count() {
            let mapped = inverse_key_index(&kind, key);
            assert_eq!(mapped, kind.key_count() - 1 - key);
            assert_eq!(inverse_key_index(&kind, mapped), key);
        }
    }
    assert_eq!(inverse_key_index(&Kind::Akp815, 0), 14);
    assert_eq!(inverse_key_index(&Kind::Akp815, 0xff), 0xff);
}

#[test]
fn test_flip_key_index_values() {
    let kind = Kind::Original;
    // Five columns: each row is reversed in place.
    assert_eq!(flip_key_index(&kind, 0), 4);
    assert_eq!(flip_key_index(&kind, 2), 2);
    assert_eq!(flip_key_index(&kind, 4), 0);
    assert_eq!(flip_key_index(&kind, 5), 9);
    assert_eq!(flip_key_index(&kind, 14), 10);
    assert_eq!(flip_key_index(&kind, 0xff), 0xff);
}

#[test]
fn test_flip_key_index_involution() {
    let kind = Kind::Original;
    for key in 0..kind.key_count() {
        let flipped = flip_key_index(&kind, key);
        assert!(flipped < kind.key_count());
        assert_eq!(flip_key_index(&kind, flipped), key);
        // The flip stays within the key's own row.
        assert_eq!(flipped / kind.column_count(), key / kind.column_count());
    }
}
