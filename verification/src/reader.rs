//! The state reader: retains the last-seen button and encoder levels and
//! turns each raw snapshot into edge-triggered events by diffing.
//!
//! Families whose hardware reports a momentary pulse rather than a sustained
//! level get a synthetic release right after every press and never update the
//! stored state; all other families emit events only on actual transitions.

use vstd::prelude::*;

use crate::deck::StreamDeck;
use crate::info::Kind;
use crate::{DeviceStateUpdate, StreamDeckError, StreamDeckInput};

verus! {

/// The events that position `i` of a button snapshot contributes: a synthetic
/// press-release pair for pulse families, a single edge event on a transition
/// for the others. Positions at or beyond the key count are touch points,
/// re-based by subtracting the key count.
pub open spec fn spec_button_update_at(
    kind: Kind,
    prior: Seq<bool>,
    snap: Seq<bool>,
    i: int,
) -> Seq<DeviceStateUpdate>
    recommends
        0 <= i < snap.len(),
        i < prior.len(),
        i <= 255,
{
    if kind.spec_uses_pulse_buttons() {
        if snap[i] {
            seq![DeviceStateUpdate::ButtonDown(i as u8), DeviceStateUpdate::ButtonUp(i as u8)]
        } else {
            Seq::empty()
        }
    } else if snap[i] != prior[i] {
        if i < kind.spec_key_count() {
            if snap[i] {
                seq![DeviceStateUpdate::ButtonDown(i as u8)]
            } else {
                seq![DeviceStateUpdate::ButtonUp(i as u8)]
            }
        } else {
            if snap[i] {
                seq![DeviceStateUpdate::TouchPointDown((i - kind.spec_key_count()) as u8)]
            } else {
                seq![DeviceStateUpdate::TouchPointUp((i - kind.spec_key_count()) as u8)]
            }
        }
    } else {
        Seq::empty()
    }
}

/// The events of the first `k` positions of a button snapshot, in ascending
/// position order.
pub open spec fn spec_button_updates_upto(
    kind: Kind,
    prior: Seq<bool>,
    snap: Seq<bool>,
    k: nat,
) -> Seq<DeviceStateUpdate>
    decreases k,
{
    if k == 0 {
        Seq::empty()
    } else {
        spec_button_updates_upto(kind, prior, snap, (k - 1) as nat) + spec_button_update_at(
            kind,
            prior,
            snap,
            k - 1,
        )
    }
}

/// The number of positions a diff walks: the snapshot and the stored state
/// side by side, up to the shorter of the two.
pub open spec fn spec_zip_len(a: nat, b: nat) -> nat {
    if a <= b {
        a
    } else {
        b
    }
}

/// All events of one button snapshot against the stored state.
pub open spec fn spec_button_updates(kind: Kind, prior: Seq<bool>, snap: Seq<bool>) -> Seq<
    DeviceStateUpdate,
> {
    spec_button_updates_upto(kind, prior, snap, spec_zip_len(snap.len(), prior.len()))
}

/// The events that position `i` of an encoder snapshot contributes.
pub open spec fn spec_encoder_update_at(
    kind: Kind,
    prior: Seq<bool>,
    snap: Seq<bool>,
    i: int,
) -> Seq<DeviceStateUpdate>
    recommends
        0 <= i < snap.len(),
        i < prior.len(),
        i <= 255,
{
    if kind.spec_uses_pulse_encoders() {
        if snap[i] {
            seq![DeviceStateUpdate::EncoderDown(i as u8), DeviceStateUpdate::EncoderUp(i as u8)]
        } else {
            Seq::empty()
        }
    } else if snap[i] != prior[i] {
        if snap[i] {
            seq![DeviceStateUpdate::EncoderDown(i as u8)]
        } else {
            seq![DeviceStateUpdate::EncoderUp(i as u8)]
        }
    } else {
        Seq::empty()
    }
}

/// The events of the first `k` positions of an encoder snapshot.
pub open spec fn spec_encoder_updates_upto(
    kind: Kind,
    prior: Seq<bool>,
    snap: Seq<bool>,
    k: nat,
) -> Seq<DeviceStateUpdate>
    decreases k,
{
    if k == 0 {
        Seq::empty()
    } else {
        spec_encoder_updates_upto(kind, prior, snap, (k - 1) as nat) + spec_encoder_update_at(
            kind,
            prior,
            snap,
            k - 1,
        )
    }
}

/// All events of one encoder snapshot against the stored state.
pub open spec fn spec_encoder_updates(kind: Kind, prior: Seq<bool>, snap: Seq<bool>) -> Seq<
    DeviceStateUpdate,
> {
    spec_encoder_updates_upto(kind, prior, snap, spec_zip_len(snap.len(), prior.len()))
}

/// The events of the first `k` entries of a twist vector: one signed twist
/// event per nonzero entry.
pub open spec fn spec_twist_updates_upto(twist: Seq<i8>, k: nat) -> Seq<DeviceStateUpdate>
    decreases k,
{
    if k == 0 {
        Seq::empty()
    } else {
        spec_twist_updates_upto(twist, (k - 1) as nat) + (if twist[k - 1] != 0 {
            seq![DeviceStateUpdate::EncoderTwist((k - 1) as u8, twist[k - 1])]
        } else {
            Seq::empty()
        })
    }
}

/// All events of one twist vector.
pub open spec fn spec_twist_updates(twist: Seq<i8>) -> Seq<DeviceStateUpdate> {
    spec_twist_updates_upto(twist, twist.len())
}

/// Diffs one button snapshot against the stored state, in ascending position
/// order.
pub fn diff_button_states(kind: Kind, prior: &Vec<bool>, snapshot: &Vec<bool>) -> (r: Vec<
    DeviceStateUpdate,
>)
    requires
        prior@.len() <= 255 || snapshot@.len() <= 255,
    ensures
        r@ == spec_button_updates(kind, prior@, snapshot@),
{
    let n = if snapshot.len() <= prior.len() {
        snapshot.len()
    } else {
        prior.len()
    };
    let mut updates: Vec<DeviceStateUpdate> = Vec::new();
    let mut i: usize = 0;
    while i < n
        invariant
            i <= n,
            n == spec_zip_len(snapshot@.len(), prior@.len()),
            n <= 255,
            updates@ == spec_button_updates_upto(kind, prior@, snapshot@, i as nat),
        decreases n - i,
    {
        if kind.uses_pulse_buttons() {
            if snapshot[i] {
                updates.push(DeviceStateUpdate::ButtonDown(i as u8));
                updates.push(DeviceStateUpdate::ButtonUp(i as u8));
            }
        } else if snapshot[i] != prior[i] {
            if (i as u8) < kind.key_count() {
                if snapshot[i] {
                    updates.push(DeviceStateUpdate::ButtonDown(i as u8));
                } else {
                    updates.push(DeviceStateUpdate::ButtonUp(i as u8));
                }
            } else {
                if snapshot[i] {
                    updates.push(DeviceStateUpdate::TouchPointDown(i as u8 - kind.key_count()));
                } else {
                    updates.push(DeviceStateUpdate::TouchPointUp(i as u8 - kind.key_count()));
                }
            }
        }
        proof {
            assert(updates@ =~= spec_button_updates_upto(kind, prior@, snapshot@, i as nat + 1));
        }
        i += 1;
    }
    updates
}

/// Diffs one encoder snapshot against the stored state.
pub fn diff_encoder_states(kind: Kind, prior: &Vec<bool>, snapshot: &Vec<bool>) -> (r: Vec<
    DeviceStateUpdate,
>)
    requires
        prior@.len() <= 255 || snapshot@.len() <= 255,
    ensures
        r@ == spec_encoder_updates(kind, prior@, snapshot@),
{
    let n = if snapshot.len() <= prior.len() {
        snapshot.len()
    } else {
        prior.len()
    };
    let mut updates: Vec<DeviceStateUpdate> = Vec::new();
    let mut i: usize = 0;
    while i < n
        invariant
            i <= n,
            n == spec_zip_len(snapshot@.len(), prior@.len()),
            n <= 255,
            updates@ == spec_encoder_updates_upto(kind, prior@, snapshot@, i as nat),
        decreases n - i,
    {
        if kind.uses_pulse_encoders() {
            if snapshot[i] {
                updates.push(DeviceStateUpdate::EncoderDown(i as u8));
                updates.push(DeviceStateUpdate::EncoderUp(i as u8));
            }
        } else if snapshot[i] != prior[i] {
            if snapshot[i] {
                updates.push(DeviceStateUpdate::EncoderDown(i as u8));
            } else {
                updates.push(DeviceStateUpdate::EncoderUp(i as u8));
            }
        }
        proof {
            assert(updates@ =~= spec_encoder_updates_upto(kind, prior@, snapshot@, i as nat + 1));
        }
        i += 1;
    }
    updates
}

/// Turns one twist vector into events: one signed twist per nonzero entry,
/// silent entries contribute nothing.
pub fn diff_encoder_twist(twist: &Vec<i8>) -> (r: Vec<DeviceStateUpdate>)
    requires
        twist@.len() <= 255,
    ensures
        r@ == spec_twist_updates(twist@),
{
    let mut updates: Vec<DeviceStateUpdate> = Vec::new();
    let mut i: usize = 0;
    while i < twist.len()
        invariant
            i <= twist@.len(),
            twist@.len() <= 255,
            updates@ == spec_twist_updates_upto(twist@, i as nat),
        decreases twist@.len() - i,
    {
        if twist[i] != 0 {
            updates.push(DeviceStateUpdate::EncoderTwist(i as u8, twist[i]));
        }
        proof {
            assert(updates@ =~= spec_twist_updates_upto(twist@, i as nat + 1));
        }
        i += 1;
    }
    updates
}

/// How one successful read relates the decoded input to the events returned
/// and the reader's stored state: button and encoder snapshots are diffed
/// against the stored levels, which advance to the snapshot except for
/// pulse-reporting families, where they stay untouched; twists and touch
/// inputs are forwarded without touching the stored state; no data means no
/// events.
pub open spec fn spec_read_outcome(
    kind: Kind,
    prior_buttons: Seq<bool>,
    prior_encoders: Seq<bool>,
    input: StreamDeckInput,
    events: Seq<DeviceStateUpdate>,
    new_buttons: Seq<bool>,
    new_encoders: Seq<bool>,
) -> bool {
    match input {
        StreamDeckInput::ButtonStateChange(v) => {
            &&& events == spec_button_updates(kind, prior_buttons, v@)
            &&& new_buttons == (if kind.spec_uses_pulse_buttons() {
                prior_buttons
            } else {
                v@
            })
            &&& new_encoders == prior_encoders
        },
        StreamDeckInput::EncoderStateChange(v) => {
            &&& events == spec_encoder_updates(kind, prior_encoders, v@)
            &&& new_encoders == (if kind.spec_uses_pulse_encoders() {
                prior_encoders
            } else {
                v@
            })
            &&& new_buttons == prior_buttons
        },
        StreamDeckInput::EncoderTwist(t) => {
            &&& events == spec_twist_updates(t@)
            &&& new_buttons == prior_buttons
            &&& new_encoders == prior_encoders
        },
        StreamDeckInput::TouchScreenPress(x, y) => {
            &&& events == seq![DeviceStateUpdate::TouchScreenPress(x, y)]
            &&& new_buttons == prior_buttons
            &&& new_encoders == prior_encoders
        },
        StreamDeckInput::TouchScreenLongPress(x, y) => {
            &&& events == seq![DeviceStateUpdate::TouchScreenLongPress(x, y)]
            &&& new_buttons == prior_buttons
            &&& new_encoders == prior_encoders
        },
        StreamDeckInput::TouchScreenSwipe(x1, y1, x2, y2) => {
            &&& events == seq![DeviceStateUpdate::TouchScreenSwipe(x1, y1, x2, y2)]
            &&& new_buttons == prior_buttons
            &&& new_encoders == prior_encoders
        },
        StreamDeckInput::NoData => {
            &&& events == Seq::<DeviceStateUpdate>::empty()
            &&& new_buttons == prior_buttons
            &&& new_encoders == prior_encoders
        },
    }
}

/// The last-seen levels of buttons (touch points included) and encoders.
pub struct DeviceState {
    /// Button levels, then touch point levels
    pub buttons: Vec<bool>,
    /// Encoder press levels
    pub encoders: Vec<bool>,
}

/// Button reader that keeps state of the Stream Deck and returns events
/// instead of full states.
pub struct DeviceStateReader {
    device: StreamDeck,
    states: DeviceState,
}

/// A vector of `n` false flags.
fn new_false_vec(n: usize) -> (r: Vec<bool>)
    ensures
        r@ == Seq::new(n as nat, |i: int| false),
{
    let mut v: Vec<bool> = Vec::new();
    let mut i: usize = 0;
    while i < n
        invariant
            i <= n,
            v@.len() == i,
            forall|j: int| 0 <= j < i ==> v@[j] == false,
        decreases n - i,
    {
        v.push(false);
        i += 1;
    }
    assert(v@ =~= Seq::new(n as nat, |i: int| false));
    v
}

impl StreamDeck {
    /// Returns a state reader for this device, its stored state all released.
    pub fn get_reader(self) -> (r: DeviceStateReader)
        ensures
            r.wf(),
            r.spec_kind() == self.spec_kind(),
            r.buttons() == Seq::new(
                (self.spec_kind().spec_key_count() + self.spec_kind().spec_touchpoint_count()) as nat,
                |i: int| false,
            ),
            r.encoders() == Seq::new(self.spec_kind().spec_encoder_count() as nat, |i: int| false),
    {
        let kind = self.kind();
        let buttons = new_false_vec(kind.key_count() as usize + kind.touchpoint_count() as usize);
        let encoders = new_false_vec(kind.encoder_count() as usize);
        DeviceStateReader { device: self, states: DeviceState { buttons, encoders } }
    }
}

impl DeviceStateReader {
    /// Kind of the device behind this reader.
    pub closed spec fn spec_kind(&self) -> Kind {
        self.device.spec_kind()
    }

    /// The stored button and touch point levels.
    pub closed spec fn buttons(&self) -> Seq<bool> {
        self.states.buttons@
    }

    /// The stored encoder levels.
    pub closed spec fn encoders(&self) -> Seq<bool> {
        self.states.encoders@
    }

    /// The stored state never outgrows a byte-indexed key space.
    pub closed spec fn wf(&self) -> bool {
        self.buttons().len() <= 255 && self.encoders().len() <= 255
    }

    /// Reads states and returns updates: the diff of the decoded snapshot
    /// against the stored state, which is advanced for level-reporting
    /// families and left alone for pulse-reporting ones.
    pub fn read(&mut self, timeout_ms: Option<u32>) -> (r: Result<
        Vec<DeviceStateUpdate>,
        StreamDeckError,
    >)
        requires
            old(self).wf(),
        ensures
            final(self).wf(),
            final(self).spec_kind() == old(self).spec_kind(),
            old(self).spec_kind().spec_uses_pulse_buttons() ==> final(self).buttons() == old(
                self,
            ).buttons(),
            old(self).spec_kind().spec_uses_pulse_encoders() ==> final(self).encoders() == old(
                self,
            ).encoders(),
            r is Err ==> final(self).buttons() == old(self).buttons() && final(self).encoders()
                == old(self).encoders(),
            r matches Ok(u) ==> exists|input: StreamDeckInput, raw: Seq<u8>|
                raw.len() == crate::deck::spec_read_length(old(self).spec_kind())
                    && #[trigger] crate::spec_decoded_input(
                    old(self).spec_kind(),
                    raw,
                    Ok(input),
                ) && spec_read_outcome(
                    old(self).spec_kind(),
                    old(self).buttons(),
                    old(self).encoders(),
                    input,
                    u@,
                    final(self).buttons(),
                    final(self).encoders(),
                ),
    {
        let ghost prior_buttons = self.buttons();
        let ghost prior_encoders = self.encoders();
        let input = self.device.read_input(timeout_ms)?;
        let ghost decoded = input;
        let kind = self.device.kind();

        let updates: Vec<DeviceStateUpdate> = match input {
            StreamDeckInput::ButtonStateChange(buttons) => {
                let updates = diff_button_states(kind, &self.states.buttons, &buttons);
                if !kind.uses_pulse_buttons() {
                    self.states.buttons = buttons;
                }
                updates
            },
            StreamDeckInput::EncoderStateChange(encoders) => {
                let updates = diff_encoder_states(kind, &self.states.encoders, &encoders);
                if !kind.uses_pulse_encoders() {
                    self.states.encoders = encoders;
                }
                updates
            },
            StreamDeckInput::EncoderTwist(twist) => diff_encoder_twist(&twist),
            StreamDeckInput::TouchScreenPress(x, y) => {
                let mut one = Vec::new();
                one.push(DeviceStateUpdate::TouchScreenPress(x, y));
                proof {
                    assert(one@ =~= seq![DeviceStateUpdate::TouchScreenPress(x, y)]);
                }
                one
            },
            StreamDeckInput::TouchScreenLongPress(x, y) => {
                let mut one = Vec::new();
                one.push(DeviceStateUpdate::TouchScreenLongPress(x, y));
                proof {
                    assert(one@ =~= seq![DeviceStateUpdate::TouchScreenLongPress(x, y)]);
                }
                one
            },
            StreamDeckInput::TouchScreenSwipe(x1, y1, x2, y2) => {
                let mut one = Vec::new();
                one.push(DeviceStateUpdate::TouchScreenSwipe(x1, y1, x2, y2));
                proof {
                    assert(one@ =~= seq![DeviceStateUpdate::TouchScreenSwipe(x1, y1, x2, y2)]);
                }
                one
            },
            StreamDeckInput::NoData => Vec::new(),
        };

        proof {
            assert(spec_read_outcome(
                self.spec_kind(),
                prior_buttons,
                prior_encoders,
                decoded,
                updates@,
                self.buttons(),
                self.encoders(),
            ));
        }
        Ok(updates)
    }
}

} // verus!
