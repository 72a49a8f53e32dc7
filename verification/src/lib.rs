//! Library for driving Elgato Stream Deck and compatible macro-pad devices
//! over USB HID, with verified report framing, key-index mapping, image
//! preparation and input decoding.

use vstd::prelude::*;

pub mod deck;
pub mod reader;
pub mod images;
pub mod info;
pub mod reports;
pub mod util;

pub use deck::StreamDeck;
pub use reader::{diff_button_states, diff_encoder_states, diff_encoder_twist, DeviceState, DeviceStateReader};

use crate::info::Kind;
use crate::info::is_vendor_familiar;
use crate::util::{
    ajazz03_read_input, ajazz153_to_elgato_input, inverse_key_index, mirabox_e3en_read_input,
    read_button_states, read_encoder_input, read_lcd_input, spec_button_states, spec_le16,
    spec_mirabox_v2_encoder, spec_mirabox_v2_is_button_code, spec_mirabox_v2_key_slot,
    spec_mirabox_v2_twist, spec_one_hot,
};

verus! {

/// Type of input that the device produced
#[derive(Clone, Debug)]
pub enum StreamDeckInput {
    /// No data was passed from the device
    NoData,
    /// Button was pressed
    ButtonStateChange(Vec<bool>),
    /// Encoder/Knob was pressed
    EncoderStateChange(Vec<bool>),
    /// Encoder/Knob was twisted/turned
    EncoderTwist(Vec<i8>),
    /// Touch screen received short press
    TouchScreenPress(u16, u16),
    /// Touch screen received long press
    TouchScreenLongPress(u16, u16),
    /// Touch screen received a swipe, as start and end coordinates
    TouchScreenSwipe(u16, u16, u16, u16),
}

impl StreamDeckInput {
    /// Checks if there's data received or not
    pub fn is_empty(&self) -> (r: bool)
        ensures
            r == (self is NoData),
    {
        matches!(self, StreamDeckInput::NoData)
    }
}

/// Tells what changed in button states
#[derive(Copy, Clone, Debug, Hash, PartialEq, Eq)]
pub enum DeviceStateUpdate {
    /// Button got pressed down
    ButtonDown(u8),
    /// Button got released
    ButtonUp(u8),
    /// Encoder got pressed down
    EncoderDown(u8),
    /// Encoder was released from being pressed down
    EncoderUp(u8),
    /// Encoder was twisted
    EncoderTwist(u8, i8),
    /// Touch Point got pressed down
    TouchPointDown(u8),
    /// Touch Point got released
    TouchPointUp(u8),
    /// Touch screen received short press
    TouchScreenPress(u16, u16),
    /// Touch screen received long press
    TouchScreenLongPress(u16, u16),
    /// Touch screen received a swipe, as start and end coordinates
    TouchScreenSwipe(u16, u16, u16, u16),
}

/// Errors that can occur while working with the devices.
#[derive(Copy, Clone, Debug, PartialEq, Eq, Structural)]
pub enum StreamDeckError {
    /// The HID transport failed
    HidError,
    /// Failed to convert bytes into a string
    Utf8Error,
    /// Failed to encode an image
    ImageError,
    /// Shared state was left inconsistent by an earlier failure
    PoisonError,
    /// There is nowhere to write an image on this device
    NoScreen,
    /// Key index is out of range
    InvalidKeyIndex,
    /// Touch point index is out of range
    InvalidTouchPointIndex,
    /// Unrecognized product identifier
    UnrecognizedPID,
    /// The device does not support this operation
    UnsupportedOperation,
    /// The device sent data that cannot be decoded
    BadData,
}

/// Relies on HidApi::new: creates a fresh context with the currently visible
/// device list.
#[verifier::external_body]
pub fn new_hidapi() -> (r: Result<hidapi::HidApi, StreamDeckError>)
    ensures
        r is Err ==> r->Err_0 == StreamDeckError::HidError,
{
    match hidapi::HidApi::new() {
        Ok(api) => Ok(api),
        Err(_) => Err(StreamDeckError::HidError),
    }
}

/// Relies on HidApi::refresh_devices: refreshes the context's device list.
#[verifier::external_body]
pub fn refresh_device_list(hidapi: &mut hidapi::HidApi) -> (r: Result<(), StreamDeckError>)
    ensures
        r is Err ==> r->Err_0 == StreamDeckError::HidError,
{
    match hidapi.refresh_devices() {
        Ok(_) => Ok(()),
        Err(_) => Err(StreamDeckError::HidError),
    }
}

/// The kind that one enumerated device resolves to: its vendor must be
/// familiar and its product ID must belong to that vendor.
pub open spec fn spec_entry_kind(vid: u16, pid: u16) -> Option<Kind> {
    if crate::info::spec_is_vendor_familiar(vid) {
        match Kind::spec_from_pid(pid) {
            Some(k) => if k.spec_vendor_id() == vid {
                Some(k)
            } else {
                None
            },
            None => None,
        }
    } else {
        None
    }
}

/// The recognized devices among the enumerated ones: entries of familiar
/// vendors whose product resolves to a kind and whose serial is non-empty,
/// deduplicated, keeping first occurrences in order.
pub open spec fn spec_device_list(entries: Seq<(u16, u16, Seq<char>)>) -> Seq<(Kind, Seq<char>)>
    decreases entries.len(),
{
    if entries.len() == 0 {
        Seq::empty()
    } else {
        let rest = spec_device_list(entries.drop_last());
        let e = entries.last();
        match spec_entry_kind(e.0, e.1) {
            Some(k) => if e.2.len() > 0 && !rest.contains((k, e.2)) {
                rest.push((k, e.2))
            } else {
                rest
            },
            None => rest,
        }
    }
}

/// Whether a (kind, serial) pair is already among the resolved devices.
fn contains_device(list: &Vec<(Kind, String)>, kind: Kind, serial: &String) -> (r: bool)
    ensures
        r == spec_resolved_view(list@).contains((kind, serial@)),
{
    let mut i: usize = 0;
    while i < list.len()
        invariant
            i <= list@.len(),
            forall|j: int|
                0 <= j < i ==> !(list@[j].0 == kind && #[trigger] list@[j].1@ == serial@),
        decreases list@.len() - i,
    {
        if list[i].0 == kind && list[i].1.eq(serial) {
            proof {
                assert(spec_resolved_view(list@)[i as int] == (kind, serial@));
            }
            return true;
        }
        i += 1;
    }
    proof {
        assert forall|j: int| 0 <= j < list@.len() implies spec_resolved_view(list@)[j] != (
            kind,
            serial@,
        ) by {
            assert(spec_resolved_view(list@)[j] == (list@[j].0, list@[j].1@));
        }
        if spec_resolved_view(list@).contains((kind, serial@)) {
            let w = choose|w: int|
                0 <= w < spec_resolved_view(list@).len() && spec_resolved_view(list@)[w] == (
                    kind,
                    serial@,
                );
        }
    }
    false
}

/// The resolved devices as they stand in the contracts: kinds with the serial
/// characters.
pub open spec fn spec_resolved_view(list: Seq<(Kind, String)>) -> Seq<(Kind, Seq<char>)> {
    list.map_values(|p: (Kind, String)| (p.0, p.1@))
}

/// The enumerated devices as they stand in the contracts.
pub open spec fn spec_entries_view(entries: Seq<(u16, u16, String)>) -> Seq<(u16, u16, Seq<char>)> {
    entries.map_values(|e: (u16, u16, String)| (e.0, e.1, e.2@))
}

/// Whatever is enumerated, the resolved device list never holds a duplicate
/// (kind, serial) pair, and every serial in it is non-empty.
pub proof fn lemma_device_list_invariants(entries: Seq<(u16, u16, Seq<char>)>)
    ensures
        forall|i: int, j: int|
            0 <= i < j < spec_device_list(entries).len() ==> spec_device_list(entries)[i]
                != spec_device_list(entries)[j],
        forall|i: int|
            0 <= i < spec_device_list(entries).len() ==> (#[trigger] spec_device_list(
                entries,
            )[i]).1.len() > 0,
    decreases entries.len(),
{
    if entries.len() > 0 {
        lemma_device_list_invariants(entries.drop_last());
        let rest = spec_device_list(entries.drop_last());
        let e = entries.last();
        match spec_entry_kind(e.0, e.1) {
            Some(k) => {
                if e.2.len() > 0 && !rest.contains((k, e.2)) {
                    assert forall|i: int| 0 <= i < rest.len() implies rest[i] != (k, e.2) by {
                        if rest[i] == (k, e.2) {
                            assert(rest.contains((k, e.2)));
                        }
                    }
                }
            },
            None => {},
        }
    }
}

/// Resolves enumerated device identities to recognized kinds: familiar
/// vendors only, product ID mapped to its kind, empty serials dropped, and
/// duplicates removed keeping the first occurrence.
pub fn resolve_devices(entries: &Vec<(u16, u16, String)>) -> (r: Vec<(Kind, String)>)
    ensures
        spec_resolved_view(r@) == spec_device_list(spec_entries_view(entries@)),
{
    let mut found: Vec<(Kind, String)> = Vec::new();
    let mut i: usize = 0;
    proof {
        assert(spec_entries_view(entries@).subrange(0, 0) =~= Seq::empty());
        assert(spec_resolved_view(found@) =~= spec_device_list(
            spec_entries_view(entries@).subrange(0, 0),
        ));
    }
    while i < entries.len()
        invariant
            i <= entries@.len(),
            spec_resolved_view(found@) == spec_device_list(
                spec_entries_view(entries@).subrange(0, i as int),
            ),
        decreases entries@.len() - i,
    {
        proof {
            assert(spec_entries_view(entries@).subrange(0, i + 1).drop_last()
                =~= spec_entries_view(entries@).subrange(0, i as int));
            assert(spec_entries_view(entries@).subrange(0, i + 1).last() == (
                entries@[i as int].0,
                entries@[i as int].1,
                entries@[i as int].2@,
            ));
        }
        let (vid, pid, serial) = &entries[i];
        if is_vendor_familiar(vid) {
            match Kind::from_vid_pid(*vid, *pid) {
                Some(kind) => {
                    if !serial.as_str().is_empty() && !contains_device(&found, kind, serial) {
                        let serial_copy = serial.clone();
                        found.push((kind, serial_copy));
                        proof {
                            assert(spec_resolved_view(found@) =~= spec_device_list(
                                spec_entries_view(entries@).subrange(0, i + 1),
                            ));
                        }
                    } else {
                        proof {
                            assert(spec_resolved_view(found@) =~= spec_device_list(
                                spec_entries_view(entries@).subrange(0, i + 1),
                            ));
                        }
                    }
                },
                None => {
                    proof {
                        assert(spec_resolved_view(found@) =~= spec_device_list(
                            spec_entries_view(entries@).subrange(0, i + 1),
                        ));
                    }
                },
            }
        } else {
            proof {
                assert(spec_resolved_view(found@) =~= spec_device_list(
                    spec_entries_view(entries@).subrange(0, i + 1),
                ));
            }
        }
        i += 1;
    }
    proof {
        assert(spec_entries_view(entries@).subrange(0, entries@.len() as int) =~= spec_entries_view(
            entries@,
        ));
    }
    found
}

/// Returns a list of recognized devices as (kind, serial number) pairs found
/// through the HID context: the resolution of some enumerated identity list,
/// so it never holds a duplicate pair or an empty serial. To refresh the
/// list, use [refresh_device_list].
pub fn list_devices(hidapi: &hidapi::HidApi) -> (r: Vec<(Kind, String)>)
    ensures
        exists|entries: Seq<(u16, u16, Seq<char>)>| #[trigger] spec_device_list(entries)
            == spec_resolved_view(r@),
        forall|i: int, j: int|
            0 <= i < j < r@.len() ==> spec_resolved_view(r@)[i] != spec_resolved_view(r@)[j],
        forall|i: int| 0 <= i < r@.len() ==> (#[trigger] spec_resolved_view(r@)[i]).1.len() > 0,
{
    let entries = util::hid_device_ids(hidapi);
    let found = resolve_devices(&entries);
    proof {
        lemma_device_list_invariants(spec_entries_view(entries@));
        assert(spec_device_list(spec_entries_view(entries@)) == spec_resolved_view(found@));
    }
    found
}

/// The shortest raw input report that can be decoded for a family.
pub open spec fn spec_input_report_min_len(kind: Kind) -> int {
    if kind == Kind::Plus {
        14
    } else if kind.spec_is_mirabox() {
        11
    } else if kind == Kind::Original || kind == Kind::Mini || kind == Kind::MiniMk2 {
        1 + kind.spec_key_count()
    } else {
        4 + kind.spec_key_count() + kind.spec_touchpoint_count()
    }
}

/// The caller-facing key index that a first-generation MiraBox button code
/// denotes: the device's one-based physical code, mapped back through the
/// family's wiring order.
pub open spec fn spec_mirabox_v1_key(kind: Kind, code: u8) -> int {
    util::spec_key_from_physical(kind, code as int - 1)
}

/// Decodes one raw input report into a structured input, dispatching on the
/// family's report layout. The leading byte zero means "no data". A report
/// sub-type that the family does not produce is a decode failure.
/// What decoding one raw input report yields, for every family: the exact
/// relation that `decode_input` establishes between the report bytes and its
/// result.
pub open spec fn spec_decoded_input(
    kind: Kind,
    data: Seq<u8>,
    r: Result<StreamDeckInput, StreamDeckError>,
) -> bool
    recommends
        data.len() >= spec_input_report_min_len(kind),
{
    &&& (data[0] == 0 ==> (r matches Ok(s) && s is NoData))
    &&& (kind == Kind::Plus && data[0] != 0 ==> {
        &&& data[1] == 0 ==> (r matches Ok(s) && s matches StreamDeckInput::ButtonStateChange(
            v,
        ) && v@ == spec_button_states(kind, data))
        &&& data[1] == 2 && data[4] == 1 ==> (r matches Ok(s)
            && s matches StreamDeckInput::TouchScreenPress(x, y) && x == spec_le16(
            data[6],
            data[7],
        ) && y == spec_le16(data[8], data[9]))
        &&& data[1] == 2 && data[4] == 2 ==> (r matches Ok(s)
            && s matches StreamDeckInput::TouchScreenLongPress(x, y) && x == spec_le16(
            data[6],
            data[7],
        ) && y == spec_le16(data[8], data[9]))
        &&& data[1] == 2 && data[4] == 3 ==> (r matches Ok(s)
            && s matches StreamDeckInput::TouchScreenSwipe(x1, y1, x2, y2) && x1 == spec_le16(
            data[6],
            data[7],
        ) && y1 == spec_le16(data[8], data[9]) && x2 == spec_le16(data[10], data[11]) && y2
            == spec_le16(data[12], data[13]))
        &&& data[1] == 2 && !(data[4] == 1 || data[4] == 2 || data[4] == 3) ==> (
        r matches Err(e) && e == StreamDeckError::BadData)
        &&& data[1] == 3 && data[4] == 0 ==> (r matches Ok(s)
            && s matches StreamDeckInput::EncoderStateChange(v) && v@ == Seq::new(
            kind.spec_encoder_count() as nat,
            |i: int| data[5 + i] != 0,
        ))
        &&& data[1] == 3 && data[4] == 1 ==> (r matches Ok(s)
            && s matches StreamDeckInput::EncoderTwist(v) && v@ == Seq::new(
            kind.spec_encoder_count() as nat,
            |i: int| data[5 + i] as i8,
        ))
        &&& data[1] == 3 && !(data[4] == 0 || data[4] == 1) ==> (r matches Err(e) && e
            == StreamDeckError::BadData)
        &&& !(data[1] == 0 || data[1] == 2 || data[1] == 3) ==> (r matches Err(e) && e
            == StreamDeckError::BadData)
    })
    &&& (kind.spec_is_mirabox_v1() && data[0] != 0 ==> {
        &&& data[9] == 0 ==> (r matches Ok(s) && s matches StreamDeckInput::ButtonStateChange(
            v,
        ) && v@ == Seq::new(kind.spec_key_count() as nat, |i: int| false))
        &&& data[9] != 0 && spec_mirabox_v1_key(kind, data[9]) <= kind.spec_key_count() ==> (
        r matches Ok(s) && s matches StreamDeckInput::ButtonStateChange(v) && v@ == Seq::new(
            kind.spec_key_count() as nat,
            |i: int| i == spec_mirabox_v1_key(kind, data[9]),
        ))
        &&& data[9] != 0 && spec_mirabox_v1_key(kind, data[9]) > kind.spec_key_count()
            && kind == Kind::MiraBoxDK0108D ==> (r matches Ok(s) && s is NoData)
        &&& data[9] != 0 && spec_mirabox_v1_key(kind, data[9]) > kind.spec_key_count()
            && kind != Kind::MiraBoxDK0108D ==> (r matches Err(e) && e
            == StreamDeckError::BadData)
    })
    &&& (kind == Kind::MiraBoxE3EN && data[0] != 0 ==> {
        &&& data[9] == 0 ==> (r matches Ok(s) && s matches StreamDeckInput::ButtonStateChange(
            v,
        ) && v@ == Seq::new(kind.spec_key_count() as nat, |i: int| false))
        &&& data[9] != 0 && spec_mirabox_v2_key_slot(data[9]) != 0 ==> (r matches Ok(s)
            && s matches StreamDeckInput::ButtonStateChange(v) && v@ == Seq::new(
            kind.spec_key_count() as nat,
            |i: int| i == spec_mirabox_v2_key_slot(data[9]) - 1 && data[10] != 0,
        ))
        &&& spec_mirabox_v2_twist(data[9]) matches Some(t) ==> (r matches Ok(s)
            && s matches StreamDeckInput::EncoderTwist(v) && v@ == Seq::new(
            kind.spec_encoder_count() as nat,
            |i: int| if i == t.0 {
                t.1
            } else {
                0i8
            },
        ))
        &&& spec_mirabox_v2_encoder(data[9]) matches Some(e) ==> (r matches Ok(s)
            && s matches StreamDeckInput::EncoderStateChange(v) && v@ == Seq::new(
            kind.spec_encoder_count() as nat,
            |i: int| i == e && data[10] != 0,
        ))
        &&& !spec_mirabox_v2_is_button_code(data[9]) && spec_mirabox_v2_twist(data[9])
            is None && spec_mirabox_v2_encoder(data[9]) is None ==> (r matches Err(e) && e
            == StreamDeckError::BadData)
    })
    &&& (kind.spec_is_mirabox_v2() && kind != Kind::MiraBoxE3EN && data[0] != 0 ==> {
        &&& data[9] == 0 ==> (r matches Ok(s) && s matches StreamDeckInput::ButtonStateChange(
            v,
        ) && v@ == Seq::new(kind.spec_key_count() as nat, |i: int| false))
        &&& data[9] != 0 && spec_mirabox_v2_key_slot(data[9]) != 0 ==> (r matches Ok(s)
            && s matches StreamDeckInput::ButtonStateChange(v) && v@ == spec_one_hot(
            kind.spec_key_count() as nat,
            spec_mirabox_v2_key_slot(data[9]) - 1,
        ))
        &&& spec_mirabox_v2_twist(data[9]) matches Some(t) ==> (r matches Ok(s)
            && s matches StreamDeckInput::EncoderTwist(v) && v@ == Seq::new(
            kind.spec_encoder_count() as nat,
            |i: int| if i == t.0 {
                t.1
            } else {
                0i8
            },
        ))
        &&& spec_mirabox_v2_encoder(data[9]) matches Some(e) ==> (r matches Ok(s)
            && s matches StreamDeckInput::EncoderStateChange(v) && v@ == spec_one_hot(
            kind.spec_encoder_count() as nat,
            e,
        ))
        &&& !spec_mirabox_v2_is_button_code(data[9]) && spec_mirabox_v2_twist(data[9])
            is None && spec_mirabox_v2_encoder(data[9]) is None ==> (r matches Err(e) && e
            == StreamDeckError::BadData)
    })
    &&& (!(kind == Kind::Plus || kind.spec_is_mirabox()) && data[0] != 0 ==> (r matches Ok(s)
        && s matches StreamDeckInput::ButtonStateChange(v) && v@ == spec_button_states(
        kind,
        data,
    )))
}

pub fn decode_input(kind: Kind, data: &[u8]) -> (r: Result<StreamDeckInput, StreamDeckError>)
    requires
        data@.len() >= spec_input_report_min_len(kind),
    ensures
        spec_decoded_input(kind, data@, r),
{
    if data[0] == 0 {
        return Ok(StreamDeckInput::NoData);
    }
    if matches!(kind, Kind::Plus) {
        match data[1] {
            0x0 => Ok(StreamDeckInput::ButtonStateChange(read_button_states(&kind, data))),
            0x2 => read_lcd_input(data),
            0x3 => read_encoder_input(&kind, data),
            _ => Err(StreamDeckError::BadData),
        }
    } else if kind.is_mirabox_v1() {
        let code = data[9];
        let mut states = util::mirabox_blank_states(&kind);
        if code != 0 {
            let key: u8 = if matches!(kind, Kind::Akp815) {
                inverse_key_index(&kind, code - 1)
            } else if matches!(
                kind,
                Kind::Akp153 | Kind::Akp153E | Kind::Akp153R | Kind::MiraBoxHSV293S,
            ) {
                ajazz153_to_elgato_input(&kind, code - 1)
            } else {
                code - 1
            };

            if key > kind.key_count() {
                // This device can slide its view; as it does, it sends key
                // events beyond its grid, which carry no key state.
                if matches!(kind, Kind::MiraBoxDK0108D) {
                    return Ok(StreamDeckInput::NoData);
                }
                return Err(StreamDeckError::BadData);
            }
            states[key as usize + 1] = 0x1;
        }
        let decoded = read_button_states(&kind, states.as_slice());
        proof {
            if code != 0 {
                assert(decoded@ =~= Seq::new(
                    kind.spec_key_count() as nat,
                    |i: int| i == spec_mirabox_v1_key(kind, code),
                ));
            } else {
                assert(decoded@ =~= Seq::new(kind.spec_key_count() as nat, |i: int| false));
            }
        }
        Ok(StreamDeckInput::ButtonStateChange(decoded))
    } else if matches!(kind, Kind::MiraBoxE3EN) {
        mirabox_e3en_read_input(&kind, data[9], data[10])
    } else if kind.is_mirabox_v2() {
        ajazz03_read_input(&kind, data[9])
    } else {
        Ok(StreamDeckInput::ButtonStateChange(read_button_states(&kind, data)))
    }
}

} // verus!
