//! State diffing: snapshots against stored state become edge-triggered
//! events.

use elgato_streamdeck::info::Kind;
use elgato_streamdeck::reports::{command_pages, PagedCommand};
use elgato_streamdeck::util::flip_key_index;
use elgato_streamdeck::{
    diff_button_states, diff_encoder_states, diff_encoder_twist, DeviceStateUpdate,
};

fn snapshot(len: usize, pressed: &[usize]) -> Vec<bool> {
    let mut v = vec![false; len];
    for i in pressed {
        v[*i] = true;
    }
    v
}

#[test]
fn test_diff_transition_family() {
    // All-false prior state, indices 2 and 5 pressed: one down event each, in
    // ascending index order.
    let kind = Kind::Mk2;
    let prior = snapshot(15, &[]);
    let snap = snapshot(15, &[2, 5]);
    let updates = diff_button_states(kind, &prior, &snap);
    assert_eq!(
        updates,
        vec![DeviceStateUpdate::ButtonDown(2), DeviceStateUpdate::ButtonDown(5)]
    );
}

#[test]
fn test_diff_pulse_family() {
    // A momentary-pulse family synthesizes a release right after every press.
    let kind = Kind::Akp153;
    let prior = snapshot(18, &[]);
    let snap = snapshot(18, &[2, 5]);
    let updates = diff_button_states(kind, &prior, &snap);
    assert_eq!(
        updates,
        vec![
            DeviceStateUpdate::ButtonDown(2),
            DeviceStateUpdate::ButtonUp(2),
            DeviceStateUpdate::ButtonDown(5),
            DeviceStateUpdate::ButtonUp(5),
        ]
    );
}

#[test]
fn test_diff_pulse_ignores_prior() {
    // For pulse families a flag that was already set still pulses.
    let kind = Kind::Akp153;
    let prior = snapshot(18, &[2]);
    let snap = snapshot(18, &[2]);
    let updates = diff_button_states(kind, &prior, &snap);
    assert_eq!(
        updates,
        vec![DeviceStateUpdate::ButtonDown(2), DeviceStateUpdate::ButtonUp(2)]
    );
}

#[test]
fn test_diff_release_events() {
    let kind = Kind::Mk2;
    let prior = snapshot(15, &[1, 7]);
    let snap = snapshot(15, &[7]);
    let updates = diff_button_states(kind, &prior, &snap);
    assert_eq!(updates, vec![DeviceStateUpdate::ButtonUp(1)]);
}

#[test]
fn test_diff_no_change_is_silent() {
    let kind = Kind::Mk2;
    let prior = snapshot(15, &[3]);
    let snap = snapshot(15, &[3]);
    assert_eq!(diff_button_states(kind, &prior, &snap), vec![]);
}

#[test]
fn test_diff_touchpoints_rebase() {
    // The Neo has eight keys and two touch points: positions eight and nine
    // are touch points zero and one.
    let kind = Kind::Neo;
    let prior = snapshot(10, &[]);
    let snap = snapshot(10, &[8]);
    let updates = diff_button_states(kind, &prior, &snap);
    assert_eq!(updates, vec![DeviceStateUpdate::TouchPointDown(0)]);

    let released = diff_button_states(kind, &snap, &prior);
    assert_eq!(released, vec![DeviceStateUpdate::TouchPointUp(0)]);
}

#[test]
fn test_diff_encoders() {
    let kind = Kind::Plus;
    let prior = snapshot(4, &[1]);
    let snap = snapshot(4, &[2]);
    let updates = diff_encoder_states(kind, &prior, &snap);
    assert_eq!(
        updates,
        vec![DeviceStateUpdate::EncoderUp(1), DeviceStateUpdate::EncoderDown(2)]
    );
}

#[test]
fn test_diff_encoders_pulse_family() {
    let kind = Kind::Akp03E;
    let prior = snapshot(3, &[]);
    let snap = snapshot(3, &[0]);
    let updates = diff_encoder_states(kind, &prior, &snap);
    assert_eq!(
        updates,
        vec![DeviceStateUpdate::EncoderDown(0), DeviceStateUpdate::EncoderUp(0)]
    );
}

#[test]
fn test_diff_twist() {
    let twist: Vec<i8> = vec![0, -1, 0, 3];
    let updates = diff_encoder_twist(&twist);
    assert_eq!(
        updates,
        vec![DeviceStateUpdate::EncoderTwist(1, -1), DeviceStateUpdate::EncoderTwist(3, 3)]
    );
    assert_eq!(diff_encoder_twist(&vec![0i8; 4]), vec![]);
}

#[test]
fn test_end_to_end_press_release_for_fifteen_key_deck() {
    // A fifteen-key family without encoders or touch points: a snapshot with
    // only index seven set yields one press, and the following all-false
    // snapshot yields the matching release.
    let kind = Kind::OriginalV2;
    assert_eq!(kind.key_count(), 15);
    assert_eq!(kind.encoder_count(), 0);
    assert_eq!(kind.touchpoint_count(), 0);

    let mut stored = snapshot(15, &[]);
    let first = snapshot(15, &[7]);
    let updates = diff_button_states(kind, &stored, &first);
    assert_eq!(updates, vec![DeviceStateUpdate::ButtonDown(7)]);
    stored = first;

    let second = snapshot(15, &[]);
    let updates = diff_button_states(kind, &stored, &second);
    assert_eq!(updates, vec![DeviceStateUpdate::ButtonUp(7)]);
}

#[test]
fn test_end_to_end_pages_for_logical_key_seven() {
    // The transfer for logical key seven of a fifteen-key family is addressed
    // to its physical index and carries exactly the payload's pages.
    let payload: Vec<u8> = (0..1500u32).map(|i| (i % 256) as u8).collect();

    // On the second revision the physical index is the logical index.
    let pages = command_pages(PagedCommand::KeyImage(Kind::OriginalV2, 7), &payload).unwrap();
    assert_eq!(pages.len(), 2);
    assert_eq!(pages[0][2], 7);
    let mut sent: Vec<u8> = Vec::new();
    sent.extend_from_slice(&pages[0][8..8 + 1016]);
    sent.extend_from_slice(&pages[1][8..8 + 484]);
    assert_eq!(sent, payload);

    // On the first revision the row is wired in reverse: logical key seven is
    // physical key seven of the middle row flipped.
    let phys = flip_key_index(&Kind::Original, 7);
    assert_eq!(phys, 7);
    let phys0 = flip_key_index(&Kind::Original, 0);
    assert_eq!(phys0, 4);
}
