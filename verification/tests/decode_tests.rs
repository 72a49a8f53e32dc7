//! Input decoding: raw report bytes to structured inputs, per family.

use elgato_streamdeck::decode_input;
use elgato_streamdeck::info::Kind;
use elgato_streamdeck::util::{
    ajazz03_read_encoder_press, ajazz03_read_encoder_value, ajazz03_read_input, extract_str,
    mirabox_e3en_read_input, read_button_states, read_encoder_input, read_lcd_input,
};
use elgato_streamdeck::{StreamDeckError, StreamDeckInput};

fn buttons(input: Result<StreamDeckInput, StreamDeckError>) -> Vec<bool> {
    match input.unwrap() {
        StreamDeckInput::ButtonStateChange(v) => v,
        other => panic!("expected a button snapshot, got {:?}", other),
    }
}

#[test]
fn test_decode_no_data() {
    let data = vec![0u8; 64];
    assert!(matches!(decode_input(Kind::Xl, &data), Ok(StreamDeckInput::NoData)));
    let data512 = vec![0u8; 512];
    assert!(matches!(decode_input(Kind::Akp153, &data512), Ok(StreamDeckInput::NoData)));
}

#[test]
fn test_decode_default_family_buttons() {
    // XL-style report: four header bytes, then one byte per key.
    let mut data = vec![0u8; 4 + 32];
    data[0] = 1;
    data[4] = 1;  // key 0
    data[4 + 31] = 1;  // key 31
    let states = buttons(decode_input(Kind::Xl, &data));
    assert_eq!(states.len(), 32);
    assert!(states[0]);
    assert!(states[31]);
    assert_eq!(states.iter().filter(|b| **b).count(), 2);
}

#[test]
fn test_decode_original_flips_rows() {
    // First-revision report: one header byte, then one byte per physical key.
    // Physical position 0 is the caller's key 4 (rows are wired reversed).
    let mut data = vec![0u8; 1 + 15];
    data[0] = 1;
    data[1] = 1;
    let states = buttons(decode_input(Kind::Original, &data));
    assert_eq!(states.len(), 15);
    assert!(states[4]);
    assert_eq!(states.iter().filter(|b| **b).count(), 1);
}

#[test]
fn test_decode_mini_buttons() {
    let mut data = vec![0u8; 1 + 6];
    data[0] = 1;
    data[2] = 1;
    let states = buttons(decode_input(Kind::Mini, &data));
    assert_eq!(states.len(), 6);
    assert!(states[1]);
}

#[test]
fn test_decode_plus_dispatch() {
    // Button snapshot: sub-type zero.
    let mut data = vec![0u8; 14];
    data[0] = 1;
    data[1] = 0;
    data[4 + 3] = 1;
    let states = buttons(decode_input(Kind::Plus, &data));
    assert_eq!(states.len(), 10);
    assert!(states[3]);

    // Unknown sub-type is a decode failure.
    let mut bad = vec![0u8; 14];
    bad[0] = 1;
    bad[1] = 9;
    assert_eq!(decode_input(Kind::Plus, &bad).unwrap_err(), StreamDeckError::BadData);
}

#[test]
fn test_decode_plus_touch_screen() {
    let mut data = vec![0u8; 14];
    data[0] = 1;
    data[1] = 2;
    data[4] = 1;
    data[6] = 0x34;
    data[7] = 0x12;
    data[8] = 0x21;
    data[9] = 0x00;
    assert!(matches!(
        decode_input(Kind::Plus, &data),
        Ok(StreamDeckInput::TouchScreenPress(0x1234, 0x21))
    ));

    data[4] = 2;
    assert!(matches!(
        decode_input(Kind::Plus, &data),
        Ok(StreamDeckInput::TouchScreenLongPress(0x1234, 0x21))
    ));

    data[4] = 3;
    data[10] = 0x01;
    data[11] = 0x02;
    data[12] = 0x03;
    data[13] = 0x04;
    assert!(matches!(
        decode_input(Kind::Plus, &data),
        Ok(StreamDeckInput::TouchScreenSwipe(0x1234, 0x21, 0x0201, 0x0403))
    ));

    data[4] = 7;
    assert_eq!(decode_input(Kind::Plus, &data).unwrap_err(), StreamDeckError::BadData);
}

#[test]
fn test_decode_plus_encoders() {
    let mut data = vec![0u8; 14];
    data[0] = 1;
    data[1] = 3;
    data[4] = 0;
    data[5] = 1;
    data[8] = 1;
    match decode_input(Kind::Plus, &data).unwrap() {
        StreamDeckInput::EncoderStateChange(v) => {
            assert_eq!(v, vec![true, false, false, true]);
        },
        other => panic!("expected encoder states, got {:?}", other),
    }

    data[4] = 1;
    data[5] = 0xff;  // -1 twist on the first encoder
    data[8] = 2;
    match decode_input(Kind::Plus, &data).unwrap() {
        StreamDeckInput::EncoderTwist(v) => {
            assert_eq!(v, vec![-1, 0, 0, 2]);
        },
        other => panic!("expected encoder twist, got {:?}", other),
    }
}

#[test]
fn test_decode_mirabox_v1_one_hot() {
    // The AKP153 reports a one-based physical key code; position 13 on the
    // wire is the caller's key 0.
    let mut data = vec![0u8; 512];
    data[0] = 1;
    data[9] = 13;
    let states = buttons(decode_input(Kind::Akp153, &data));
    assert_eq!(states.len(), 18);
    assert!(states[0]);
    assert_eq!(states.iter().filter(|b| **b).count(), 1);

    // Code zero is an all-released snapshot.
    data[9] = 0;
    let released = buttons(decode_input(Kind::Akp153, &data));
    assert_eq!(released.len(), 18);
    assert!(released.iter().all(|b| !b));

    // A code beyond the grid cannot be decoded.
    data[9] = 40;
    assert_eq!(decode_input(Kind::Akp153, &data).unwrap_err(), StreamDeckError::BadData);
}

#[test]
fn test_decode_mirabox_v1_akp815_inverts() {
    let mut data = vec![0u8; 512];
    data[0] = 1;
    data[9] = 1;  // physical 0 is the caller's last key
    let states = buttons(decode_input(Kind::Akp815, &data));
    assert_eq!(states.len(), 15);
    assert!(states[14]);
}

#[test]
fn test_decode_dk0108d_slide_events_are_silent() {
    // The sliding view sends key codes beyond the grid; they carry no state.
    let mut data = vec![0u8; 512];
    data[0] = 1;
    data[9] = 49;
    assert!(matches!(decode_input(Kind::MiraBoxDK0108D, &data), Ok(StreamDeckInput::NoData)));
}

#[test]
fn test_decode_ajazz03_buttons() {
    let kind = Kind::Akp03;
    // Codes one through six are the display keys.
    let states = buttons(ajazz03_read_input(&kind, 3));
    assert_eq!(states.len(), 9);
    assert!(states[2]);
    assert_eq!(states.iter().filter(|b| **b).count(), 1);
    // The three plain buttons have their own codes.
    let states = buttons(ajazz03_read_input(&kind, 0x25));
    assert!(states[6]);
    let states = buttons(ajazz03_read_input(&kind, 0x30));
    assert!(states[7]);
    let states = buttons(ajazz03_read_input(&kind, 0x31));
    assert!(states[8]);
    // Zero means everything released.
    let states = buttons(ajazz03_read_input(&kind, 0));
    assert!(states.iter().all(|b| !b));
    // An unknown code cannot be decoded.
    assert_eq!(ajazz03_read_input(&kind, 0x77).unwrap_err(), StreamDeckError::BadData);
}

#[test]
fn test_decode_ajazz03_encoders() {
    let kind = Kind::Akp03;
    match ajazz03_read_input(&kind, 0x90).unwrap() {
        StreamDeckInput::EncoderTwist(v) => assert_eq!(v, vec![-1, 0, 0]),
        other => panic!("expected twist, got {:?}", other),
    }
    match ajazz03_read_input(&kind, 0x51).unwrap() {
        StreamDeckInput::EncoderTwist(v) => assert_eq!(v, vec![0, 1, 0]),
        other => panic!("expected twist, got {:?}", other),
    }
    match ajazz03_read_input(&kind, 0x61).unwrap() {
        StreamDeckInput::EncoderTwist(v) => assert_eq!(v, vec![0, 0, 1]),
        other => panic!("expected twist, got {:?}", other),
    }
    match ajazz03_read_input(&kind, 0x34).unwrap() {
        StreamDeckInput::EncoderStateChange(v) => assert_eq!(v, vec![false, false, true]),
        other => panic!("expected encoder press, got {:?}", other),
    }
}

#[test]
fn test_decode_e3en_levels() {
    let kind = Kind::MiraBoxE3EN;
    // The E3EN carries the level in a separate byte: one is down, zero is up.
    let states = buttons(mirabox_e3en_read_input(&kind, 2, 1));
    assert!(states[1]);
    let states = buttons(mirabox_e3en_read_input(&kind, 2, 0));
    assert!(states.iter().all(|b| !b));
    match mirabox_e3en_read_input(&kind, 0x33, 1).unwrap() {
        StreamDeckInput::EncoderStateChange(v) => assert_eq!(v, vec![true, false, false]),
        other => panic!("expected encoder press, got {:?}", other),
    }
    match mirabox_e3en_read_input(&kind, 0x33, 0).unwrap() {
        StreamDeckInput::EncoderStateChange(v) => assert_eq!(v, vec![false, false, false]),
        other => panic!("expected encoder press, got {:?}", other),
    }
    // Through the session dispatch the level byte follows the code byte.
    let mut data = vec![0u8; 512];
    data[0] = 1;
    data[9] = 2;
    data[10] = 1;
    let states = buttons(decode_input(kind, &data));
    assert!(states[1]);
}

#[test]
fn test_read_button_states_no_data() {
    let data = vec![0u8; 20];
    assert_eq!(read_button_states(&Kind::Xl, &data), Vec::<bool>::new());
    // A no-data buffer is accepted even when it is shorter than the family's
    // report: only its first byte is read.
    let short = vec![0u8; 4];
    assert_eq!(read_button_states(&Kind::Original, &short), Vec::<bool>::new());
}

#[test]
fn test_encoder_codes_on_plus() {
    // The twist and press codes address the first three encoders; any kind
    // with at least three decodes them, the Stream Deck Plus included.
    match ajazz03_read_encoder_value(&Kind::Plus, 0x90).unwrap() {
        StreamDeckInput::EncoderTwist(v) => assert_eq!(v, vec![-1, 0, 0, 0]),
        other => panic!("expected twist, got {:?}", other),
    }
    match ajazz03_read_encoder_press(&Kind::Plus, 0x35).unwrap() {
        StreamDeckInput::EncoderStateChange(v) => {
            assert_eq!(v, vec![false, true, false, false]);
        },
        other => panic!("expected encoder press, got {:?}", other),
    }
}

#[test]
fn test_read_lcd_input_direct() {
    let mut data = vec![0u8; 14];
    data[4] = 1;
    data[6] = 0x10;
    data[8] = 0x20;
    assert!(matches!(read_lcd_input(&data), Ok(StreamDeckInput::TouchScreenPress(0x10, 0x20))));
    data[4] = 9;
    assert_eq!(read_lcd_input(&data).unwrap_err(), StreamDeckError::BadData);
}

#[test]
fn test_read_encoder_input_direct() {
    let mut data = vec![0u8; 9];
    data[4] = 2;
    assert_eq!(read_encoder_input(&Kind::Plus, &data).unwrap_err(), StreamDeckError::BadData);
}

#[test]
fn test_extract_str_drops_fill_bytes() {
    let bytes = [b'A', 0, b'B', b'1', 0, 0, b'2', 0];
    assert_eq!(extract_str(&bytes).unwrap(), "AB12");
    let empty: [u8; 4] = [0, 0, 0, 0];
    assert_eq!(extract_str(&empty).unwrap(), "");
}

#[test]
fn test_extract_str_rejects_malformed_utf8() {
    let bytes = [b'A', 0xc0, 0x20];
    assert_eq!(extract_str(&bytes).unwrap_err(), StreamDeckError::Utf8Error);
    // Validity is judged on the raw bytes: a NUL interrupting a multi-byte
    // sequence makes the input invalid even though stripping it would leave
    // valid text.
    let interrupted = [0xc3, 0x00, 0xa9];
    assert_eq!(extract_str(&interrupted).unwrap_err(), StreamDeckError::Utf8Error);
}
