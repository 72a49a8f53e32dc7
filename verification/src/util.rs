//! Key-index mapping and raw report decoding.
//!
//! The key mappers reconcile the caller-facing row-major key numbering with
//! each device family's native wiring order; the decoders turn raw HID report
//! bytes into structured input. Transport helpers at the bottom carry the
//! actual HID calls.

use vstd::arithmetic::div_mod::{lemma_fundamental_div_mod, lemma_mod_multiples_vanish};
use vstd::prelude::*;

use crate::info::Kind;
use crate::{StreamDeckError, StreamDeckInput};

verus! {

/// A sequence of `n` zero bytes.
pub open spec fn zeros(n: nat) -> Seq<u8> {
    Seq::new(n, |i: int| 0u8)
}

/// Mapping from the caller-facing key index of the AKP153 grid to the wiring
/// order of the device, for indices in `[0, 18)`.
pub open spec fn spec_elgato_to_ajazz153(key: int) -> int {
    if key == 0 { 12 } else if key == 1 { 9 } else if key == 2 { 6 } else if key == 3 { 3 }
    else if key == 4 { 0 } else if key == 5 { 15 } else if key == 6 { 13 } else if key == 7 { 10 }
    else if key == 8 { 7 } else if key == 9 { 4 } else if key == 10 { 1 } else if key == 11 { 16 }
    else if key == 12 { 14 } else if key == 13 { 11 } else if key == 14 { 8 } else if key == 15 { 5 }
    else if key == 16 { 2 } else if key == 17 { 17 } else { key }
}

/// Mapping from the AKP153 wiring order back to the caller-facing key index,
/// for indices in `[0, 18)`.
pub open spec fn spec_ajazz153_to_elgato(key: int) -> int {
    if key == 0 { 4 } else if key == 1 { 10 } else if key == 2 { 16 } else if key == 3 { 3 }
    else if key == 4 { 9 } else if key == 5 { 15 } else if key == 6 { 2 } else if key == 7 { 8 }
    else if key == 8 { 14 } else if key == 9 { 1 } else if key == 10 { 7 } else if key == 11 { 13 }
    else if key == 12 { 0 } else if key == 13 { 6 } else if key == 14 { 12 } else if key == 15 { 5 }
    else if key == 16 { 11 } else if key == 17 { 17 } else { key }
}

/// The bottom-to-top inversion used by families wired in reverse: the last key
/// becomes the first. Indices at or beyond the key count pass through.
pub open spec fn spec_inverse_key(kind: Kind, key: int) -> int {
    if 0 <= key < kind.spec_key_count() {
        kind.spec_key_count() - 1 - key
    } else {
        key
    }
}

/// The per-row horizontal flip used by the first-revision Stream Deck, whose
/// keys are wired right-to-left within each row. Indices at or beyond the key
/// count pass through.
pub open spec fn spec_flip_key(kind: Kind, key: int) -> int {
    if 0 <= key < kind.spec_key_count() {
        let cols = kind.spec_column_count() as int;
        let col = key % cols;
        (key - col) + (cols - 1 - col)
    } else {
        key
    }
}

/// The physical key index the device family expects for a caller-facing
/// (row-major) key index.
pub open spec fn spec_key_to_physical(kind: Kind, key: int) -> int {
    match kind {
        Kind::Original => spec_flip_key(kind, key),
        Kind::Akp153 | Kind::Akp153E | Kind::Akp153R | Kind::MiraBoxHSV293S => {
            if 0 <= key < kind.spec_key_count() {
                spec_elgato_to_ajazz153(key)
            } else {
                key
            }
        },
        Kind::Akp815 => spec_inverse_key(kind, key),
        _ => key,
    }
}

/// The caller-facing (row-major) key index for a physical key index reported
/// by the device.
pub open spec fn spec_key_from_physical(kind: Kind, key: int) -> int {
    match kind {
        Kind::Original => spec_flip_key(kind, key),
        Kind::Akp153 | Kind::Akp153E | Kind::Akp153R | Kind::MiraBoxHSV293S => {
            if 0 <= key < kind.spec_key_count() {
                spec_ajazz153_to_elgato(key)
            } else {
                key
            }
        },
        Kind::Akp815 => spec_inverse_key(kind, key),
        _ => key,
    }
}

/// Converts caller-facing key index to Ajazz AKP153 wiring order
pub fn elgato_to_ajazz153(kind: &Kind, key: u8) -> (r: u8)
    requires
        kind.spec_key_count() == 18,
    ensures
        r as int == (if key < 18 { spec_elgato_to_ajazz153(key as int) } else { key as int }),
{
    if key < kind.key_count() {
        match key {
            0 => 12, 1 => 9, 2 => 6, 3 => 3, 4 => 0, 5 => 15,
            6 => 13, 7 => 10, 8 => 7, 9 => 4, 10 => 1, 11 => 16,
            12 => 14, 13 => 11, 14 => 8, 15 => 5, 16 => 2, _ => 17,
        }
    } else {
        key
    }
}

/// Converts Ajazz AKP153 wiring order to caller-facing key index
pub fn ajazz153_to_elgato_input(kind: &Kind, key: u8) -> (r: u8)
    requires
        kind.spec_key_count() == 18,
    ensures
        r as int == (if key < 18 { spec_ajazz153_to_elgato(key as int) } else { key as int }),
{
    if key < kind.key_count() {
        match key {
            0 => 4, 1 => 10, 2 => 16, 3 => 3, 4 => 9, 5 => 15,
            6 => 2, 7 => 8, 8 => 14, 9 => 1, 10 => 7, 11 => 13,
            12 => 0, 13 => 6, 14 => 12, 15 => 5, 16 => 11, _ => 17,
        }
    } else {
        key
    }
}

/// Make last key index first, and first key index last
pub fn inverse_key_index(kind: &Kind, key: u8) -> (r: u8)
    ensures
        r as int == spec_inverse_key(*kind, key as int),
{
    if key < kind.key_count() {
        kind.key_count() - 1 - key
    } else {
        key
    }
}

/// Flips key index horizontally, for use with the first-revision Stream Deck
pub fn flip_key_index(kind: &Kind, key: u8) -> (r: u8)
    ensures
        r as int == spec_flip_key(*kind, key as int),
{
    if key < kind.key_count() {
        let col = key % kind.column_count();
        (key - col) + ((kind.column_count() - 1) - col)
    } else {
        key
    }
}

/// The per-row flip stays within the key grid and is its own inverse.
pub proof fn lemma_flip_key_involution(kind: Kind, key: int)
    requires
        0 <= key < kind.spec_key_count(),
    ensures
        0 <= spec_flip_key(kind, key) < kind.spec_key_count(),
        spec_flip_key(kind, spec_flip_key(kind, key)) == key,
{
    let cols = kind.spec_column_count() as int;
    let col = key % cols;
    let flipped = (key - col) + (cols - 1 - col);
    lemma_fundamental_div_mod(key, cols);
    lemma_capability_table_grid(kind);
    assert(flipped == cols * (key / cols) + (cols - 1 - col));
    lemma_mod_multiples_vanish(key / cols, cols - 1 - col, cols);
    assert((cols - 1 - col) % cols == cols - 1 - col) by {
        lemma_small_mod_pos(cols - 1 - col, cols);
    }
    assert(flipped % cols == cols - 1 - col);
    assert(flipped < kind.spec_key_count()) by {
        assert(key / cols < kind.spec_row_count()) by {
            assert(cols * (key / cols) <= key);
        }
        assert(cols * (key / cols) + cols <= cols * kind.spec_row_count()) by (nonlinear_arith)
            requires
                key / cols < kind.spec_row_count() as int,
                cols > 0,
        ;
    }
}

/// `x % m == x` for `0 <= x < m`.
proof fn lemma_small_mod_pos(x: int, m: int)
    requires
        0 <= x < m,
    ensures
        x % m == x,
{
    lemma_fundamental_div_mod(x, m);
    assert(x / m == 0) by (nonlinear_arith)
        requires
            0 <= x < m,
    ;
}

/// The key grid of every family is exactly rows by columns, with at least one
/// column.
proof fn lemma_capability_table_grid(kind: Kind)
    ensures
        kind.spec_key_count() == kind.spec_row_count() * kind.spec_column_count(),
        0 < kind.spec_column_count(),
{
    crate::info::lemma_capability_table_consistent(kind);
}

/// Extends a vendor-envelope packet with zero padding up to the fixed packet
/// length of the family's protocol generation.
pub open spec fn spec_mirabox_packet_length(kind: Kind) -> int {
    if kind.spec_is_mirabox_v2() {
        1025
    } else {
        513
    }
}

/// Extends buffer up to required packet length
pub fn mirabox_extend_packet(kind: &Kind, buf: &mut Vec<u8>)
    requires
        old(buf)@.len() <= spec_mirabox_packet_length(*kind),
    ensures
        final(buf)@ == old(buf)@ + zeros(
            (spec_mirabox_packet_length(*kind) - old(buf)@.len()) as nat,
        ),
{
    let length: usize = if kind.is_mirabox_v2() {
        1025
    } else {
        513
    };
    while buf.len() < length
        invariant
            buf@.len() <= length,
            old(buf)@.len() <= buf@.len(),
            buf@ == old(buf)@ + zeros((buf@.len() - old(buf)@.len()) as nat),
        decreases length - buf@.len(),
    {
        buf.push(0u8);
        assert(buf@ =~= old(buf)@ + zeros((buf@.len() - old(buf)@.len()) as nat));
    }
    assert(buf@ =~= old(buf)@ + zeros((spec_mirabox_packet_length(*kind) - old(buf)@.len()) as nat));
}

/// The shortest raw button report that can be decoded for a family.
pub open spec fn spec_button_report_min_len(kind: Kind) -> int {
    if kind.spec_is_mirabox() || kind == Kind::Original {
        kind.spec_key_count() + 1
    } else if kind == Kind::Mini || kind == Kind::MiniMk2 {
        1
    } else {
        4
    }
}

/// The boolean key states encoded by a raw button report: empty when the
/// leading byte signals "no data", otherwise one flag per key read from the
/// family's layout, mapped back to caller-facing key order where the wiring
/// differs.
pub open spec fn spec_button_states(kind: Kind, states: Seq<u8>) -> Seq<bool>
    recommends
        states.len() >= spec_button_report_min_len(kind),
        states.len() >= 1,
{
    if states[0] == 0 {
        Seq::empty()
    } else if kind.spec_is_mirabox() {
        Seq::new(kind.spec_key_count() as nat, |i: int| states[i + 1] != 0)
    } else if kind == Kind::Original {
        Seq::new(kind.spec_key_count() as nat, |i: int| states[spec_flip_key(kind, i) + 1] != 0)
    } else if kind == Kind::Mini || kind == Kind::MiniMk2 {
        Seq::new((states.len() - 1) as nat, |i: int| states[i + 1] != 0)
    } else {
        Seq::new((states.len() - 4) as nat, |i: int| states[i + 4] != 0)
    }
}

/// Reads button states, empty vector if no data
pub fn read_button_states(kind: &Kind, states: &[u8]) -> (r: Vec<bool>)
    requires
        states@.len() >= 1,
        states@[0] == 0 || states@.len() >= spec_button_report_min_len(*kind),
    ensures
        r@ == spec_button_states(*kind, states@),
{
    let mut bools: Vec<bool> = Vec::new();
    if states[0] == 0 {
        assert(bools@ =~= spec_button_states(*kind, states@));
        return bools;
    }
    if kind.is_mirabox() {
        let kc = kind.key_count() as usize;
        let mut i: usize = 0;
        while i < kc
            invariant
                i <= kc,
                kc == kind.spec_key_count() as int,
                states@.len() >= kc + 1,
                states@[0] != 0,
                bools@.len() == i,
                forall|j: int| 0 <= j < i ==> bools@[j] == (states@[j + 1] != 0),
            decreases kc - i,
        {
            bools.push(states[i + 1] != 0);
            i += 1;
        }
        assert(bools@ =~= spec_button_states(*kind, states@));
        bools
    } else if matches!(kind, Kind::Original) {
        let kc = kind.key_count();
        let mut i: u8 = 0;
        while i < kc
            invariant
                i <= kc,
                kc == kind.spec_key_count(),
                kind == Kind::Original,
                states@.len() >= kc + 1,
                states@[0] != 0,
                bools@.len() == i as int,
                forall|j: int|
                    0 <= j < i ==> bools@[j] == (states@[spec_flip_key(*kind, j) + 1] != 0),
            decreases kc - i,
        {
            proof {
                lemma_flip_key_involution(*kind, i as int);
            }
            let flipped_i = flip_key_index(kind, i) as usize;
            bools.push(states[flipped_i + 1] != 0);
            i += 1;
        }
        assert(bools@ =~= spec_button_states(*kind, states@));
        bools
    } else if matches!(kind, Kind::Mini | Kind::MiniMk2) {
        let mut i: usize = 1;
        while i < states.len()
            invariant
                1 <= i <= states@.len(),
                states@[0] != 0,
                bools@.len() == i - 1,
                forall|j: int| 0 <= j < i - 1 ==> bools@[j] == (states@[j + 1] != 0),
            decreases states@.len() - i,
        {
            bools.push(states[i] != 0);
            i += 1;
        }
        assert(bools@ =~= spec_button_states(*kind, states@));
        bools
    } else {
        let mut i: usize = 4;
        while i < states.len()
            invariant
                4 <= i <= states@.len(),
                states@[0] != 0,
                bools@.len() == i - 4,
                forall|j: int| 0 <= j < i - 4 ==> bools@[j] == (states@[j + 4] != 0),
            decreases states@.len() - i,
        {
            bools.push(states[i] != 0);
            i += 1;
        }
        assert(bools@ =~= spec_button_states(*kind, states@));
        bools
    }
}

/// The 16-bit value encoded little-endian by two bytes.
pub open spec fn spec_le16(lo: u8, hi: u8) -> u16 {
    (lo + hi * 256) as u16
}

/// Reads lcd screen input
pub fn read_lcd_input(data: &[u8]) -> (r: Result<StreamDeckInput, StreamDeckError>)
    requires
        data@.len() >= 14,
    ensures
        data@[4] == 1 ==> r == Ok::<StreamDeckInput, StreamDeckError>(
            StreamDeckInput::TouchScreenPress(
                spec_le16(data@[6], data@[7]),
                spec_le16(data@[8], data@[9]),
            ),
        ),
        data@[4] == 2 ==> r == Ok::<StreamDeckInput, StreamDeckError>(
            StreamDeckInput::TouchScreenLongPress(
                spec_le16(data@[6], data@[7]),
                spec_le16(data@[8], data@[9]),
            ),
        ),
        data@[4] == 3 ==> r == Ok::<StreamDeckInput, StreamDeckError>(
            StreamDeckInput::TouchScreenSwipe(
                spec_le16(data@[6], data@[7]),
                spec_le16(data@[8], data@[9]),
                spec_le16(data@[10], data@[11]),
                spec_le16(data@[12], data@[13]),
            ),
        ),
        !(data@[4] == 1 || data@[4] == 2 || data@[4] == 3) ==> r == Err::<
            StreamDeckInput,
            StreamDeckError,
        >(StreamDeckError::BadData),
{
    let start_x = data[6] as u16 + data[7] as u16 * 256;
    let start_y = data[8] as u16 + data[9] as u16 * 256;

    match data[4] {
        0x1 => Ok(StreamDeckInput::TouchScreenPress(start_x, start_y)),
        0x2 => Ok(StreamDeckInput::TouchScreenLongPress(start_x, start_y)),
        0x3 => {
            let end_x = data[10] as u16 + data[11] as u16 * 256;
            let end_y = data[12] as u16 + data[13] as u16 * 256;
            Ok(StreamDeckInput::TouchScreenSwipe(start_x, start_y, end_x, end_y))
        },
        _ => Err(StreamDeckError::BadData),
    }
}

/// Reads encoder input
pub fn read_encoder_input(kind: &Kind, data: &[u8]) -> (r: Result<
    StreamDeckInput,
    StreamDeckError,
>)
    requires
        data@.len() >= 5 + kind.spec_encoder_count(),
    ensures
        data@[4] == 0 ==> (r matches Ok(input) && input matches StreamDeckInput::EncoderStateChange(v)
            && v@ == Seq::new(kind.spec_encoder_count() as nat, |i: int| data@[5 + i] != 0)),
        data@[4] == 1 ==> (r matches Ok(input) && input matches StreamDeckInput::EncoderTwist(v)
            && v@ == Seq::new(kind.spec_encoder_count() as nat, |i: int| data@[5 + i] as i8)),
        !(data@[4] == 0 || data@[4] == 1) ==> r == Err::<StreamDeckInput, StreamDeckError>(
            StreamDeckError::BadData,
        ),
{
    let ec = kind.encoder_count() as usize;
    match data[4] {
        0x0 => {
            let mut buttons: Vec<bool> = Vec::new();
            let mut i: usize = 0;
            while i < ec
                invariant
                    i <= ec,
                    ec == kind.spec_encoder_count() as int,
                    data@.len() >= 5 + ec,
                    buttons@.len() == i,
                    forall|j: int| 0 <= j < i ==> buttons@[j] == (data@[5 + j] != 0),
                decreases ec - i,
            {
                buttons.push(data[5 + i] != 0);
                i += 1;
            }
            assert(buttons@ =~= Seq::new(
                kind.spec_encoder_count() as nat,
                |i: int| data@[5 + i] != 0,
            ));
            Ok(StreamDeckInput::EncoderStateChange(buttons))
        },
        0x1 => {
            let mut twists: Vec<i8> = Vec::new();
            let mut i: usize = 0;
            while i < ec
                invariant
                    i <= ec,
                    ec == kind.spec_encoder_count() as int,
                    data@.len() >= 5 + ec,
                    twists@.len() == i,
                    forall|j: int| 0 <= j < i ==> twists@[j] == (data@[5 + j] as i8),
                decreases ec - i,
            {
                twists.push(data[5 + i] as i8);
                i += 1;
            }
            assert(twists@ =~= Seq::new(
                kind.spec_encoder_count() as nat,
                |i: int| data@[5 + i] as i8,
            ));
            Ok(StreamDeckInput::EncoderTwist(twists))
        },
        _ => Err(StreamDeckError::BadData),
    }
}

/// The key slot (one-based position within the raw state vector) that a
/// MiraBox second-generation button code denotes, or zero for an unknown code.
pub open spec fn spec_mirabox_v2_key_slot(input: u8) -> int {
    if 1 <= input <= 6 {
        input as int
    } else if input == 0x25 {
        7
    } else if input == 0x30 {
        8
    } else if input == 0x31 {
        9
    } else {
        0
    }
}

/// Whether a MiraBox second-generation input code denotes a button.
pub open spec fn spec_mirabox_v2_is_button_code(input: u8) -> bool {
    input == 0 || spec_mirabox_v2_key_slot(input) != 0
}

/// The encoder index and signed step that a MiraBox second-generation twist
/// code denotes, if any.
pub open spec fn spec_mirabox_v2_twist(input: u8) -> Option<(int, i8)> {
    if input == 0x90 {
        Some((0, -1i8))
    } else if input == 0x91 {
        Some((0, 1i8))
    } else if input == 0x50 {
        Some((1, -1i8))
    } else if input == 0x51 {
        Some((1, 1i8))
    } else if input == 0x60 {
        Some((2, -1i8))
    } else if input == 0x61 {
        Some((2, 1i8))
    } else {
        None
    }
}

/// The encoder index that a MiraBox second-generation encoder-press code
/// denotes, if any.
pub open spec fn spec_mirabox_v2_encoder(input: u8) -> Option<int> {
    if input == 0x33 {
        Some(0)
    } else if input == 0x35 {
        Some(1)
    } else if input == 0x34 {
        Some(2)
    } else {
        None
    }
}

/// A one-hot boolean sequence: true exactly at `slot`.
pub open spec fn spec_one_hot(len: nat, slot: int) -> Seq<bool> {
    Seq::new(len, |i: int| i == slot)
}

/// Builds the raw state vector used by the MiraBox decode paths: a nonzero
/// marker byte followed by one zero byte per key and one spare.
pub(crate) fn mirabox_blank_states(kind: &Kind) -> (r: Vec<u8>)
    ensures
        r@.len() == kind.spec_key_count() + 2,
        r@[0] == 1u8,
        forall|j: int| 1 <= j < r@.len() ==> r@[j] == 0u8,
{
    let kc = kind.key_count() as usize;
    let mut button_states: Vec<u8> = Vec::new();
    button_states.push(0x01);
    let mut i: usize = 0;
    while i < kc + 1
        invariant
            i <= kc + 1,
            kc == kind.spec_key_count() as int,
            button_states@.len() == i + 1,
            button_states@[0] == 1u8,
            forall|j: int| 1 <= j < i + 1 ==> button_states@[j] == 0u8,
        decreases kc + 1 - i,
    {
        button_states.push(0u8);
        i += 1;
    }
    button_states
}

/// Decodes a second-generation MiraBox button code whose level is carried in a
/// separate state byte, as on the MiraBox E3EN.
pub fn mirabox_e3en_read_button_press(kind: &Kind, input: u8, state: u8) -> (r: Result<
    StreamDeckInput,
    StreamDeckError,
>)
    requires
        kind.spec_is_mirabox_v2(),
    ensures
        input == 0 ==> (r matches Ok(s) && s matches StreamDeckInput::ButtonStateChange(v) && v@
            == Seq::new(kind.spec_key_count() as nat, |i: int| false)),
        input != 0 && spec_mirabox_v2_key_slot(input) != 0 ==> (r matches Ok(s)
            && s matches StreamDeckInput::ButtonStateChange(v) && v@ == Seq::new(
            kind.spec_key_count() as nat,
            |i: int| i == spec_mirabox_v2_key_slot(input) - 1 && state != 0,
        )),
        !spec_mirabox_v2_is_button_code(input) ==> r == Err::<StreamDeckInput, StreamDeckError>(
            StreamDeckError::BadData,
        ),
{
    let mut button_states = mirabox_blank_states(kind);

    if input == 0 {
        let decoded = read_button_states(kind, button_states.as_slice());
        assert(decoded@ =~= Seq::new(kind.spec_key_count() as nat, |i: int| false));
        return Ok(StreamDeckInput::ButtonStateChange(decoded));
    }
    let pressed_index: usize = if 1 <= input && input <= 6 {
        input as usize
    } else if input == 0x25 {
        7
    } else if input == 0x30 {
        8
    } else if input == 0x31 {
        9
    } else {
        return Err(StreamDeckError::BadData);
    };

    button_states[pressed_index] = state;

    let decoded = read_button_states(kind, button_states.as_slice());
    assert(decoded@ =~= Seq::new(
        kind.spec_key_count() as nat,
        |i: int| i == spec_mirabox_v2_key_slot(input) - 1 && state != 0,
    ));
    Ok(StreamDeckInput::ButtonStateChange(decoded))
}

/// Decodes a second-generation MiraBox button code that carries no level and
/// always means a press, as on the Ajazz AKP03 family.
pub fn ajazz03_read_button_press(kind: &Kind, input: u8) -> (r: Result<
    StreamDeckInput,
    StreamDeckError,
>)
    requires
        kind.spec_is_mirabox_v2(),
    ensures
        input == 0 ==> (r matches Ok(s) && s matches StreamDeckInput::ButtonStateChange(v) && v@
            == Seq::new(kind.spec_key_count() as nat, |i: int| false)),
        input != 0 && spec_mirabox_v2_key_slot(input) != 0 ==> (r matches Ok(s)
            && s matches StreamDeckInput::ButtonStateChange(v) && v@ == spec_one_hot(
            kind.spec_key_count() as nat,
            spec_mirabox_v2_key_slot(input) - 1,
        )),
        !spec_mirabox_v2_is_button_code(input) ==> r == Err::<StreamDeckInput, StreamDeckError>(
            StreamDeckError::BadData,
        ),
{
    let r = mirabox_e3en_read_button_press(kind, input, 0x1);
    proof {
        if input != 0 && spec_mirabox_v2_key_slot(input) != 0 {
            if let Ok(StreamDeckInput::ButtonStateChange(v)) = &r {
                assert(v@ =~= spec_one_hot(
                    kind.spec_key_count() as nat,
                    spec_mirabox_v2_key_slot(input) - 1,
                ));
            }
        }
    }
    r
}

/// Decodes a second-generation MiraBox encoder twist code into a one-step
/// signed delta vector, for any kind with at least the three encoders these
/// codes address.
pub fn ajazz03_read_encoder_value(kind: &Kind, input: u8) -> (r: Result<
    StreamDeckInput,
    StreamDeckError,
>)
    requires
        kind.spec_encoder_count() >= 3,
    ensures
        spec_mirabox_v2_twist(input) matches Some(t) ==> (r matches Ok(s)
            && s matches StreamDeckInput::EncoderTwist(v) && v@ == Seq::new(
            kind.spec_encoder_count() as nat,
            |i: int| if i == t.0 {
                t.1
            } else {
                0i8
            },
        )),
        spec_mirabox_v2_twist(input) is None ==> r == Err::<StreamDeckInput, StreamDeckError>(
            StreamDeckError::BadData,
        ),
{
    let ec = kind.encoder_count() as usize;
    let mut encoder_values: Vec<i8> = Vec::new();
    let mut i: usize = 0;
    while i < ec
        invariant
            i <= ec,
            encoder_values@.len() == i,
            forall|j: int| 0 <= j < i ==> encoder_values@[j] == 0i8,
        decreases ec - i,
    {
        encoder_values.push(0i8);
        i += 1;
    }

    let encoder: usize;
    let value: i8;
    if input == 0x90 {
        encoder = 0;
        value = -1;
    } else if input == 0x91 {
        encoder = 0;
        value = 1;
    } else if input == 0x50 {
        encoder = 1;
        value = -1;
    } else if input == 0x51 {
        encoder = 1;
        value = 1;
    } else if input == 0x60 {
        encoder = 2;
        value = -1;
    } else if input == 0x61 {
        encoder = 2;
        value = 1;
    } else {
        return Err(StreamDeckError::BadData);
    }

    encoder_values[encoder] = value;
    proof {
        let t = spec_mirabox_v2_twist(input).unwrap();
        assert(encoder_values@ =~= Seq::new(
            kind.spec_encoder_count() as nat,
            |i: int| if i == t.0 {
                t.1
            } else {
                0i8
            },
        ));
    }
    Ok(StreamDeckInput::EncoderTwist(encoder_values))
}

/// Decodes a second-generation MiraBox encoder press code whose level is
/// carried in a separate state byte, as on the MiraBox E3EN, for any kind
/// with at least the three encoders these codes address.
pub fn mirabox_e3en_read_encoder_press(kind: &Kind, input: u8, state: u8) -> (r: Result<
    StreamDeckInput,
    StreamDeckError,
>)
    requires
        kind.spec_encoder_count() >= 3,
    ensures
        spec_mirabox_v2_encoder(input) matches Some(e) ==> (r matches Ok(s)
            && s matches StreamDeckInput::EncoderStateChange(v) && v@ == Seq::new(
            kind.spec_encoder_count() as nat,
            |i: int| i == e && state != 0,
        )),
        spec_mirabox_v2_encoder(input) is None ==> r == Err::<StreamDeckInput, StreamDeckError>(
            StreamDeckError::BadData,
        ),
{
    let ec = kind.encoder_count() as usize;
    let mut encoder_states: Vec<bool> = Vec::new();
    let mut i: usize = 0;
    while i < ec
        invariant
            i <= ec,
            encoder_states@.len() == i,
            forall|j: int| 0 <= j < i ==> encoder_states@[j] == false,
        decreases ec - i,
    {
        encoder_states.push(false);
        i += 1;
    }

    let encoder: usize = if input == 0x33 {
        0
    } else if input == 0x35 {
        1
    } else if input == 0x34 {
        2
    } else {
        return Err(StreamDeckError::BadData);
    };

    encoder_states[encoder] = state != 0;
    proof {
        let e = spec_mirabox_v2_encoder(input).unwrap();
        assert(encoder_states@ =~= Seq::new(
            kind.spec_encoder_count() as nat,
            |i: int| i == e && state != 0,
        ));
    }
    Ok(StreamDeckInput::EncoderStateChange(encoder_states))
}

/// Decodes a second-generation MiraBox encoder press code that carries no
/// level and always means a press, as on the Ajazz AKP03 family, for any
/// kind with at least the three encoders these codes address.
pub fn ajazz03_read_encoder_press(kind: &Kind, input: u8) -> (r: Result<
    StreamDeckInput,
    StreamDeckError,
>)
    requires
        kind.spec_encoder_count() >= 3,
    ensures
        spec_mirabox_v2_encoder(input) matches Some(e) ==> (r matches Ok(s)
            && s matches StreamDeckInput::EncoderStateChange(v) && v@ == spec_one_hot(
            kind.spec_encoder_count() as nat,
            e,
        )),
        spec_mirabox_v2_encoder(input) is None ==> r == Err::<StreamDeckInput, StreamDeckError>(
            StreamDeckError::BadData,
        ),
{
    let r = mirabox_e3en_read_encoder_press(kind, input, 0x1);
    proof {
        if let Some(e) = spec_mirabox_v2_encoder(input) {
            if let Ok(StreamDeckInput::EncoderStateChange(v)) = &r {
                assert(v@ =~= spec_one_hot(kind.spec_encoder_count() as nat, e));
            }
        }
    }
    r
}

/// Read inputs from Ajazz AKP03x
pub fn ajazz03_read_input(kind: &Kind, input: u8) -> (r: Result<
    StreamDeckInput,
    StreamDeckError,
>)
    requires
        kind.spec_is_mirabox_v2(),
    ensures
        input == 0 ==> (r matches Ok(s) && s matches StreamDeckInput::ButtonStateChange(v) && v@
            == Seq::new(kind.spec_key_count() as nat, |i: int| false)),
        input != 0 && spec_mirabox_v2_key_slot(input) != 0 ==> (r matches Ok(s)
            && s matches StreamDeckInput::ButtonStateChange(v) && v@ == spec_one_hot(
            kind.spec_key_count() as nat,
            spec_mirabox_v2_key_slot(input) - 1,
        )),
        spec_mirabox_v2_twist(input) matches Some(t) ==> (r matches Ok(s)
            && s matches StreamDeckInput::EncoderTwist(v) && v@ == Seq::new(
            kind.spec_encoder_count() as nat,
            |i: int| if i == t.0 {
                t.1
            } else {
                0i8
            },
        )),
        spec_mirabox_v2_encoder(input) matches Some(e) ==> (r matches Ok(s)
            && s matches StreamDeckInput::EncoderStateChange(v) && v@ == spec_one_hot(
            kind.spec_encoder_count() as nat,
            e,
        )),
        !spec_mirabox_v2_is_button_code(input) && spec_mirabox_v2_twist(input) is None
            && spec_mirabox_v2_encoder(input) is None ==> r == Err::<
            StreamDeckInput,
            StreamDeckError,
        >(StreamDeckError::BadData),
{
    if input <= 6 || input == 0x25 || input == 0x30 || input == 0x31 {
        ajazz03_read_button_press(kind, input)
    } else if input == 0x90 || input == 0x91 || input == 0x50 || input == 0x51 || input == 0x60
        || input == 0x61 {
        ajazz03_read_encoder_value(kind, input)
    } else if input >= 0x33 && input <= 0x35 {
        ajazz03_read_encoder_press(kind, input)
    } else {
        Err(StreamDeckError::BadData)
    }
}

/// Read inputs from MiraBox E3EN
pub fn mirabox_e3en_read_input(kind: &Kind, input: u8, state: u8) -> (r: Result<
    StreamDeckInput,
    StreamDeckError,
>)
    requires
        kind.spec_is_mirabox_v2(),
    ensures
        input == 0 ==> (r matches Ok(s) && s matches StreamDeckInput::ButtonStateChange(v) && v@
            == Seq::new(kind.spec_key_count() as nat, |i: int| false)),
        input != 0 && spec_mirabox_v2_key_slot(input) != 0 ==> (r matches Ok(s)
            && s matches StreamDeckInput::ButtonStateChange(v) && v@ == Seq::new(
            kind.spec_key_count() as nat,
            |i: int| i == spec_mirabox_v2_key_slot(input) - 1 && state != 0,
        )),
        spec_mirabox_v2_twist(input) matches Some(t) ==> (r matches Ok(s)
            && s matches StreamDeckInput::EncoderTwist(v) && v@ == Seq::new(
            kind.spec_encoder_count() as nat,
            |i: int| if i == t.0 {
                t.1
            } else {
                0i8
            },
        )),
        spec_mirabox_v2_encoder(input) matches Some(e) ==> (r matches Ok(s)
            && s matches StreamDeckInput::EncoderStateChange(v) && v@ == Seq::new(
            kind.spec_encoder_count() as nat,
            |i: int| i == e && state != 0,
        )),
        !spec_mirabox_v2_is_button_code(input) && spec_mirabox_v2_twist(input) is None
            && spec_mirabox_v2_encoder(input) is None ==> r == Err::<
            StreamDeckInput,
            StreamDeckError,
        >(StreamDeckError::BadData),
{
    if input <= 6 || input == 0x25 || input == 0x30 || input == 0x31 {
        mirabox_e3en_read_button_press(kind, input, state)
    } else if input == 0x90 || input == 0x91 || input == 0x50 || input == 0x51 || input == 0x60
        || input == 0x61 {
        ajazz03_read_encoder_value(kind, input)
    } else if input >= 0x33 && input <= 0x35 {
        mirabox_e3en_read_encoder_press(kind, input, state)
    } else {
        Err(StreamDeckError::BadData)
    }
}

/// The input bytes with every occurrence of one byte value removed.
pub open spec fn strip_byte(bytes: Seq<u8>, v: u8) -> Seq<u8> {
    bytes.filter(|b: u8| b != v)
}

/// Removes every occurrence of one byte value from a byte string.
pub fn strip_byte_vec(bytes: &[u8], v: u8) -> (r: Vec<u8>)
    ensures
        r@ == strip_byte(bytes@, v),
{
    let mut filtered: Vec<u8> = Vec::new();
    let mut i: usize = 0;
    while i < bytes.len()
        invariant
            i <= bytes@.len(),
            filtered@ == strip_byte(bytes@.subrange(0, i as int), v),
        decreases bytes@.len() - i,
    {
        proof {
            reveal(Seq::filter);
            let pre = bytes@.subrange(0, i as int);
            let post = bytes@.subrange(0, i + 1);
            assert(post.drop_last() =~= pre);
            assert(post.last() == bytes@[i as int]);
        }
        if bytes[i] != v {
            filtered.push(bytes[i]);
        }
        i += 1;
    }
    proof {
        assert(bytes@.subrange(0, bytes@.len() as int) =~= bytes@);
    }
    filtered
}

/// The characters that a byte string decodes to under UTF-8, if it is valid
/// UTF-8. What this function returns on given bytes is determined by the
/// UTF-8 decoder relied on below.
pub uninterp spec fn utf8_decode(bytes: Seq<u8>) -> Option<Seq<char>>;

/// Relies on String::from_utf8: returns a string exactly when the bytes are
/// valid UTF-8, holding the characters they decode to.
#[verifier::external_body]
fn string_from_utf8(bytes: Vec<u8>) -> (r: Option<String>)
    ensures
        r is Some <==> utf8_decode(bytes@) is Some,
        r matches Some(s) ==> Some(s@) == utf8_decode(bytes@),
{
    match String::from_utf8(bytes) {
        Ok(s) => Some(s),
        Err(_) => None,
    }
}

/// Extracts a string from a byte array: the bytes must be valid UTF-8 as the
/// device delivered them, and the NUL fill bytes are then dropped from the
/// decoded text (a NUL is a single byte, so dropping the bytes drops exactly
/// the characters).
pub fn extract_str(bytes: &[u8]) -> (r: Result<String, StreamDeckError>)
    ensures
        utf8_decode(bytes@) is None ==> r is Err,
        r matches Ok(s) ==> utf8_decode(bytes@) is Some && Some(s@) == utf8_decode(
            strip_byte(bytes@, 0),
        ),
        r is Err ==> r == Err::<String, StreamDeckError>(StreamDeckError::Utf8Error),
{
    let raw = tail_from(bytes, 0);
    proof {
        assert(raw@ =~= bytes@);
    }
    if string_from_utf8(raw).is_none() {
        return Err(StreamDeckError::Utf8Error);
    }
    let filtered = strip_byte_vec(bytes, 0);
    match string_from_utf8(filtered) {
        Some(s) => Ok(s),
        None => Err(StreamDeckError::Utf8Error),
    }
}

/// The bytes of a slice from `start` on.
pub fn tail_from(bytes: &[u8], start: usize) -> (r: Vec<u8>)
    requires
        start <= bytes@.len(),
    ensures
        r@ == bytes@.skip(start as int),
{
    let mut tail: Vec<u8> = Vec::new();
    let mut i: usize = start;
    while i < bytes.len()
        invariant
            start <= i <= bytes@.len(),
            tail@ == bytes@.subrange(start as int, i as int),
        decreases bytes@.len() - i,
    {
        proof {
            assert(bytes@.subrange(start as int, i + 1) =~= bytes@.subrange(
                start as int,
                i as int,
            ).push(bytes@[i as int]));
        }
        tail.push(bytes[i]);
        i += 1;
    }
    proof {
        assert(bytes@.subrange(start as int, bytes@.len() as int) =~= bytes@.skip(start as int));
    }
    tail
}

/// A copy of a byte vector.
pub(crate) fn clone_bytes(v: &Vec<u8>) -> (r: Vec<u8>)
    ensures
        r@ == v@,
{
    let mut copy: Vec<u8> = Vec::new();
    let mut i: usize = 0;
    while i < v.len()
        invariant
            i <= v@.len(),
            copy@ == v@.subrange(0, i as int),
        decreases v@.len() - i,
    {
        proof {
            assert(v@.subrange(0, i + 1) =~= v@.subrange(0, i as int).push(v@[i as int]));
        }
        copy.push(v[i]);
        i += 1;
    }
    proof {
        assert(v@.subrange(0, v@.len() as int) =~= v@);
    }
    copy
}

/// A vector of `n` zero bytes.
pub fn new_zero_vec(n: usize) -> (r: Vec<u8>)
    ensures
        r@ == zeros(n as nat),
{
    let mut buf: Vec<u8> = Vec::new();
    let mut i: usize = 0;
    while i < n
        invariant
            i <= n,
            buf@.len() == i,
            forall|j: int| 0 <= j < i ==> buf@[j] == 0u8,
        decreases n - i,
    {
        buf.push(0u8);
        i += 1;
    }
    assert(buf@ =~= zeros(n as nat));
    buf
}

#[verifier::external_type_specification]
#[verifier::external_body]
/// The platform HID access context, opaque to the verifier.
pub struct ExHidApi(hidapi::HidApi);

#[verifier::external_type_specification]
#[verifier::external_body]
/// An open HID device handle, opaque to the verifier.
pub struct ExHidDevice(hidapi::HidDevice);

/// Relies on HidDevice::get_feature_report: reads a feature report into a
/// buffer whose first byte selects the report ID; the buffer keeps its length.
/// What the device puts in the buffer is unknown.
#[verifier::external_body]
pub fn get_feature_report(device: &hidapi::HidDevice, report_id: u8, length: usize) -> (r: Result<Vec<u8>, StreamDeckError>)
    requires
        length < usize::MAX,
    ensures
        r matches Ok(b) ==> b@.len() == length + 1,
        r is Err ==> r->Err_0 == StreamDeckError::HidError,
{
    let mut buff = vec![0u8; length + 1];
    buff[0] = report_id;
    match device.get_feature_report(&mut buff) {
        Ok(_) => Ok(buff),
        Err(_) => Err(StreamDeckError::HidError),
    }
}

/// Relies on HidDevice::send_feature_report: sends the payload as a feature
/// report; the first payload byte is the report ID.
#[verifier::external_body]
pub fn send_feature_report(device: &hidapi::HidDevice, payload: &[u8]) -> (r: Result<(), StreamDeckError>)
    ensures
        r is Err ==> r->Err_0 == StreamDeckError::HidError,
{
    match device.send_feature_report(payload) {
        Ok(_) => Ok(()),
        Err(_) => Err(StreamDeckError::HidError),
    }
}

/// Relies on HidDevice::set_blocking_mode: switches reads between blocking and
/// non-blocking.
#[verifier::external_body]
fn hid_set_blocking_mode(device: &hidapi::HidDevice, blocking: bool) -> (r: Result<(), StreamDeckError>)
    ensures
        r is Err ==> r->Err_0 == StreamDeckError::HidError,
{
    match device.set_blocking_mode(blocking) {
        Ok(_) => Ok(()),
        Err(_) => Err(StreamDeckError::HidError),
    }
}

/// Relies on HidDevice::read: reads an input report into the buffer, which
/// keeps its length; what the device sends is unknown.
#[verifier::external_body]
fn hid_read(device: &hidapi::HidDevice, buf: &mut Vec<u8>) -> (r: Result<usize, StreamDeckError>)
    ensures
        final(buf)@.len() == old(buf)@.len(),
        r is Err ==> r->Err_0 == StreamDeckError::HidError,
{
    match device.read(buf.as_mut_slice()) {
        Ok(n) => Ok(n),
        Err(_) => Err(StreamDeckError::HidError),
    }
}

/// Relies on HidDevice::read_timeout: reads an input report into the buffer
/// with a timeout in milliseconds; the buffer keeps its length.
#[verifier::external_body]
fn hid_read_timeout(device: &hidapi::HidDevice, buf: &mut Vec<u8>, timeout: i32) -> (r: Result<usize, StreamDeckError>)
    ensures
        final(buf)@.len() == old(buf)@.len(),
        r is Err ==> r->Err_0 == StreamDeckError::HidError,
{
    match device.read_timeout(buf.as_mut_slice(), timeout) {
        Ok(n) => Ok(n),
        Err(_) => Err(StreamDeckError::HidError),
    }
}

/// Reads data from the device: a buffer of exactly `length` bytes, zero-filled
/// beyond what the device sent. Blocking mode is used if a timeout is given.
pub fn read_data(device: &hidapi::HidDevice, length: usize, timeout_ms: Option<u32>) -> (r: Result<Vec<u8>, StreamDeckError>)
    ensures
        r matches Ok(b) ==> b@.len() == length,
{
    hid_set_blocking_mode(device, timeout_ms.is_some())?;

    let mut buf = new_zero_vec(length);

    match timeout_ms {
        Some(t) => {
            let t32: i32 = if t > 0x7fffffff {
                0x7fffffff
            } else {
                t as i32
            };
            hid_read_timeout(device, &mut buf, t32)?;
        },
        None => {
            hid_read(device, &mut buf)?;
        },
    }

    Ok(buf)
}

/// Relies on HidDevice::write: writes the payload as an output report; the
/// first payload byte is the report ID.
#[verifier::external_body]
pub fn write_data(device: &hidapi::HidDevice, payload: &[u8]) -> (r: Result<usize, StreamDeckError>)
    ensures
        r is Err ==> r->Err_0 == StreamDeckError::HidError,
{
    match device.write(payload) {
        Ok(n) => Ok(n),
        Err(_) => Err(StreamDeckError::HidError),
    }
}

/// Relies on HidApi::open_serial: opens the device with the given vendor ID,
/// product ID and serial number.
#[verifier::external_body]
pub(crate) fn hid_open_serial(hidapi: &hidapi::HidApi, vid: u16, pid: u16, serial: &str) -> (r: Result<hidapi::HidDevice, StreamDeckError>)
    ensures
        r is Err ==> r->Err_0 == StreamDeckError::HidError,
{
    match hidapi.open_serial(vid, pid, serial) {
        Ok(d) => Ok(d),
        Err(_) => Err(StreamDeckError::HidError),
    }
}

/// Relies on HidDevice::get_manufacturer_string: the device's manufacturer
/// string, if it reports one.
#[verifier::external_body]
pub(crate) fn hid_manufacturer_string(device: &hidapi::HidDevice) -> (r: Result<Option<String>, StreamDeckError>)
    ensures
        r is Err ==> r->Err_0 == StreamDeckError::HidError,
{
    match device.get_manufacturer_string() {
        Ok(s) => Ok(s),
        Err(_) => Err(StreamDeckError::HidError),
    }
}

/// Relies on HidDevice::get_product_string: the device's product string, if it
/// reports one.
#[verifier::external_body]
pub(crate) fn hid_product_string(device: &hidapi::HidDevice) -> (r: Result<Option<String>, StreamDeckError>)
    ensures
        r is Err ==> r->Err_0 == StreamDeckError::HidError,
{
    match device.get_product_string() {
        Ok(s) => Ok(s),
        Err(_) => Err(StreamDeckError::HidError),
    }
}

/// Relies on HidDevice::get_serial_number_string: the device's serial number
/// string, if it reports one.
#[verifier::external_body]
pub(crate) fn hid_serial_number_string(device: &hidapi::HidDevice) -> (r: Result<Option<String>, StreamDeckError>)
    ensures
        r is Err ==> r->Err_0 == StreamDeckError::HidError,
{
    match device.get_serial_number_string() {
        Ok(s) => Ok(s),
        Err(_) => Err(StreamDeckError::HidError),
    }
}

/// Relies on HidApi::device_list: the vendor ID, product ID and serial number
/// of every device the transport can see; a device without a serial number
/// yields the empty string.
#[verifier::external_body]
pub(crate) fn hid_device_ids(hidapi: &hidapi::HidApi) -> Vec<(u16, u16, String)> {
    hidapi.device_list().map(
        |d| (d.vendor_id(), d.product_id(), d.serial_number().unwrap_or("").to_string()),
    ).collect()
}

/// For every family, translating a caller-facing key index to the physical
/// wiring order and back is the identity on `[0, key_count)`, and so is the
/// reverse round trip.
pub proof fn lemma_key_mapping_roundtrip(kind: Kind, key: int)
    requires
        0 <= key < kind.spec_key_count(),
    ensures
        spec_key_from_physical(kind, spec_key_to_physical(kind, key)) == key,
        spec_key_to_physical(kind, spec_key_from_physical(kind, key)) == key,
{
    match kind {
        Kind::Original => {
            lemma_flip_key_involution(kind, key);
            lemma_flip_key_involution(kind, spec_flip_key(kind, key));
        },
        _ => {},
    }
}

} // verus!
