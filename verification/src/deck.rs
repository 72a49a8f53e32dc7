//! The device session: one open transport handle, the pending image-write
//! cache, and the synchronous device API.
//!
//! Every session method's contract is stated over an abstract log of the
//! reports written to the transport since the session was opened: a method
//! that promises `self.log() == old(self).log() + ...` sends exactly those
//! reports, in that order, and a method that keeps the log unchanged performs
//! no transport write. On failure each method's log stops inside the sequence
//! it intended to send. A second log records which feature reports are
//! queried, so the read side of the control channel is pinned down too.

use vstd::prelude::*;

use crate::images::{convert_image, generate_blank_image, spec_blank_image, spec_convert_image, spec_logo_payload, ImageData, ImageRect};
use crate::info::Kind;
use crate::reports::{
    brightness_report, command_pages, mirabox_bat_packet, mirabox_cle_packet,
    mirabox_command_packet, reset_report, spec_bat_packet, spec_brightness_report, spec_clamped,
    spec_cle_packet, spec_command_fits, spec_command_reports, spec_connect_packet, spec_han_packet,
    spec_init_reports, spec_logo_header_packet, spec_reset_report, spec_shutdown_cle_packet,
    spec_stp_packet, spec_touchpoint_color_report, touchpoint_color_report, MiraBoxCommand,
    PagedCommand,
};
use crate::util::{
    clone_bytes, extract_str, get_feature_report, hid_manufacturer_string, hid_open_serial,
    hid_product_string, hid_serial_number_string, read_data, send_feature_report,
    spec_key_to_physical, strip_byte_vec, tail_from, write_data,
};
use crate::{decode_input, StreamDeckError, StreamDeckInput};

verus! {

/// One pending image write: a logical key and its encoded image bytes.
pub(crate) struct ImageCache {
    pub(crate) key: u8,
    pub(crate) image_data: Vec<u8>,
}

/// The handshake reports still owed before the next command: nothing once the
/// session is initialized, the family's handshake otherwise.
pub open spec fn spec_init_tail(initialized: bool, kind: Kind) -> Seq<Seq<u8>> {
    if initialized {
        Seq::empty()
    } else {
        spec_init_reports(kind)
    }
}

/// The reports that transfer one image to one logical key: the vendor
/// announcement for MiraBox families, then the image pages, addressed to the
/// family's physical key index.
pub open spec fn spec_send_image_reports(kind: Kind, key: u8, data: Seq<u8>) -> Seq<Seq<u8>> {
    let phys = spec_key_to_physical(kind, key as int) as u8;
    let announce: Seq<Seq<u8>> = if kind.spec_is_mirabox() {
        seq![spec_bat_packet(kind, phys, data.len())]
    } else {
        Seq::empty()
    };
    announce + spec_command_reports(PagedCommand::KeyImage(kind, phys), data)
}

/// The reports that clear one key: the vendor clear command for MiraBox
/// families, a blank-image transfer for the others.
pub open spec fn spec_clear_button_reports(kind: Kind, key: u8) -> Seq<Seq<u8>> {
    if kind.spec_is_mirabox() {
        seq![spec_cle_packet(kind, spec_key_to_physical(kind, key as int) as u8)]
    } else {
        spec_send_image_reports(kind, key, spec_blank_image(kind))
    }
}

/// The reports that clear the first `k` keys, one blank image after another.
pub open spec fn spec_clear_keys_reports(kind: Kind, k: nat) -> Seq<Seq<u8>>
    decreases k,
{
    if k == 0 {
        Seq::empty()
    } else {
        spec_clear_keys_reports(kind, (k - 1) as nat) + spec_clear_button_reports(
            kind,
            (k - 1) as u8,
        )
    }
}

/// The reports that clear every key of a family: the sentinel vendor clear for
/// MiraBox families (followed by a commit for the second generation), a blank
/// image per key for the others.
pub open spec fn spec_clear_all_reports(kind: Kind) -> Seq<Seq<u8>> {
    if kind.spec_is_mirabox_v1() {
        seq![spec_cle_packet(kind, 0xff)]
    } else if kind.spec_is_mirabox_v2() {
        seq![spec_cle_packet(kind, 0xff), spec_stp_packet(kind)]
    } else {
        spec_clear_keys_reports(kind, kind.spec_key_count() as nat)
    }
}

/// The image transfers of the first `k` cache entries, in insertion order.
pub open spec fn spec_flush_images(kind: Kind, cache: Seq<(u8, Seq<u8>)>) -> Seq<Seq<u8>>
    decreases cache.len(),
{
    if cache.len() == 0 {
        Seq::empty()
    } else {
        spec_flush_images(kind, cache.drop_last()) + spec_send_image_reports(
            kind,
            cache.last().0,
            cache.last().1,
        )
    }
}

/// The reports of one flush of a nonempty cache: every cached image in
/// insertion order, then the commit command for MiraBox families.
pub open spec fn spec_flush_reports(kind: Kind, cache: Seq<(u8, Seq<u8>)>) -> Seq<Seq<u8>> {
    spec_flush_images(kind, cache) + if kind.spec_is_mirabox() {
        seq![spec_stp_packet(kind)]
    } else {
        Seq::empty()
    }
}

/// The feature-report query a serial-number request issues: none for MiraBox
/// families (their serial is a string descriptor), otherwise the per-family
/// report ID and length.
pub open spec fn spec_serial_number_queries(kind: Kind) -> Seq<(u8, usize)> {
    if kind.spec_is_mirabox() {
        Seq::empty()
    } else if kind == Kind::Original || kind == Kind::Mini {
        seq![(0x03u8, 17usize)]
    } else if kind == Kind::MiniMk2 {
        seq![(0x03u8, 32usize)]
    } else {
        seq![(0x06u8, 32usize)]
    }
}

/// The feature-report query a firmware-version request issues, per family.
pub open spec fn spec_firmware_version_queries(kind: Kind) -> Seq<(u8, usize)> {
    if kind == Kind::Original || kind == Kind::Mini || kind == Kind::MiniMk2 {
        seq![(0x04u8, 17usize)]
    } else if kind.spec_is_mirabox() {
        seq![(0x01u8, 20usize)]
    } else {
        seq![(0x05u8, 32usize)]
    }
}

/// The number of bytes one input read asks the transport for, per family.
pub open spec fn spec_read_length(kind: Kind) -> int {
    if kind == Kind::Plus {
        14
    } else if kind.spec_is_mirabox() {
        512
    } else if kind == Kind::Original || kind == Kind::Mini || kind == Kind::MiniMk2 {
        1 + kind.spec_key_count()
    } else {
        4 + kind.spec_key_count() + kind.spec_touchpoint_count()
    }
}

/// Interface for a Stream Deck device
pub struct StreamDeck {
    /// Kind of the device
    kind: Kind,
    /// Connected device handle
    device: hidapi::HidDevice,
    /// Image writes waiting for the next flush
    image_cache: Vec<ImageCache>,
    /// Whether the one-time startup handshake has run
    initialized: bool,
    /// All reports written to the transport since the session was opened
    sent: Ghost<Seq<Seq<u8>>>,
    /// All feature-report queries issued since the session was opened, as
    /// (report ID, requested length)
    asked: Ghost<Seq<(u8, usize)>>,
}

impl StreamDeck {
    /// Kind of the device this session drives.
    pub closed spec fn spec_kind(&self) -> Kind {
        self.kind
    }

    /// The reports written to the transport since the session was opened, in
    /// order.
    pub closed spec fn log(&self) -> Seq<Seq<u8>> {
        self.sent@
    }

    /// The pending image writes, as (logical key, image bytes) in insertion
    /// order.
    pub closed spec fn cache(&self) -> Seq<(u8, Seq<u8>)> {
        self.image_cache@.map_values(|e: ImageCache| (e.key, e.image_data@))
    }

    /// Whether the one-time startup handshake has run.
    pub closed spec fn is_initialized(&self) -> bool {
        self.initialized
    }

    /// The feature-report queries issued since the session was opened, in
    /// order, as (report ID, requested length). String-descriptor reads
    /// (manufacturer, product, the MiraBox serial) are not feature reports
    /// and do not appear here.
    pub closed spec fn queries(&self) -> Seq<(u8, usize)> {
        self.asked@
    }

    /// Attempts to connect to the device
    pub fn connect(hidapi: &hidapi::HidApi, kind: Kind, serial: &str) -> (r: Result<
        StreamDeck,
        StreamDeckError,
    >)
        ensures
            r matches Ok(deck) ==> {
                &&& deck.spec_kind() == kind
                &&& deck.cache() == Seq::<(u8, Seq<u8>)>::empty()
                &&& !deck.is_initialized()
                &&& deck.log() == Seq::<Seq<u8>>::empty()
                &&& deck.queries() == Seq::<(u8, usize)>::empty()
            },
            r is Err ==> r->Err_0 == StreamDeckError::HidError,
    {
        let device = hid_open_serial(hidapi, kind.vendor_id(), kind.product_id(), serial)?;
        let deck = StreamDeck {
            kind,
            device,
            image_cache: Vec::new(),
            initialized: false,
            sent: Ghost(Seq::empty()),
            asked: Ghost(Seq::empty()),
        };
        proof {
            assert(deck.cache() =~= Seq::<(u8, Seq<u8>)>::empty());
        }
        Ok(deck)
    }

    /// Returns kind of the Stream Deck
    pub fn kind(&self) -> (r: Kind)
        ensures
            r == self.spec_kind(),
    {
        self.kind
    }

    /// Appends one written report to the session's log.
    fn record(&mut self, report: Ghost<Seq<u8>>)
        ensures
            final(self).kind == old(self).kind,
            final(self).device == old(self).device,
            final(self).image_cache == old(self).image_cache,
            final(self).initialized == old(self).initialized,
            final(self).asked == old(self).asked,
            final(self).sent@ == old(self).sent@.push(report@),
    {
        proof {
            self.sent@ = self.sent@.push(report@);
        }
    }

    /// Runs the one-time startup handshake if it has not run yet: the two
    /// vendor-envelope packets for MiraBox families, nothing for the others.
    fn initialize(&mut self) -> (r: Result<(), StreamDeckError>)
        ensures
            final(self).spec_kind() == old(self).spec_kind(),
            final(self).queries() == old(self).queries(),
            final(self).cache() == old(self).cache(),
            final(self).queries() == old(self).queries(),
            final(self).is_initialized(),
            r is Ok ==> final(self).log() == old(self).log() + spec_init_tail(
                old(self).is_initialized(),
                old(self).spec_kind(),
            ),
            r is Err ==> old(self).log().is_prefix_of(final(self).log()) && r->Err_0
                == StreamDeckError::HidError,
            r is Err ==> final(self).log().is_prefix_of(old(self).log() + spec_init_reports(
                old(self).spec_kind(),
            )),
            old(self).is_initialized() ==> r is Ok && final(self).log() == old(self).log(),
            !old(self).spec_kind().spec_is_mirabox() ==> r is Ok && final(self).log() == old(
                self,
            ).log(),
    {
        if self.initialized {
            assert(self.log() =~= old(self).log() + spec_init_tail(true, self.kind));
            return Ok(());
        }
        self.initialized = true;

        if self.kind.is_mirabox() {
            let dis = mirabox_command_packet(self.kind, MiraBoxCommand::InitDisplay);
            if write_data(&self.device, dis.as_slice()).is_err() {
                proof {
                    lemma_log_prefix(self.log(), spec_init_reports(self.kind));
                }
                return Err(StreamDeckError::HidError);
            }
            self.record(Ghost(dis@));

            let lig = mirabox_command_packet(self.kind, MiraBoxCommand::InitBacklight);
            if write_data(&self.device, lig.as_slice()).is_err() {
                proof {
                    assert(self.log() =~= (old(self).log() + spec_init_reports(
                        self.kind,
                    )).subrange(0, self.log().len() as int));
                }
                return Err(StreamDeckError::HidError);
            }
            self.record(Ghost(lig@));
            assert(self.log() =~= old(self).log() + spec_init_tail(false, self.kind));
        } else {
            assert(self.log() =~= old(self).log() + spec_init_tail(false, self.kind));
        }
        Ok(())
    }

    /// Returns manufacturer string of the device
    pub fn manufacturer(&self) -> (r: Result<String, StreamDeckError>)
        ensures
            r is Err ==> r->Err_0 == StreamDeckError::HidError,
    {
        match hid_manufacturer_string(&self.device)? {
            Some(s) => Ok(s),
            None => Ok(String::from_str("Unknown")),
        }
    }

    /// Returns product string of the device
    pub fn product(&self) -> (r: Result<String, StreamDeckError>)
        ensures
            r is Err ==> r->Err_0 == StreamDeckError::HidError,
    {
        match hid_product_string(&self.device)? {
            Some(s) => Ok(s),
            None => Ok(String::from_str("Unknown")),
        }
    }

    /// Issues one feature-report query and records it in the query log,
    /// whether or not the transport succeeds.
    fn query_feature_report(&mut self, report_id: u8, length: usize) -> (r: Result<
        Vec<u8>,
        StreamDeckError,
    >)
        requires
            length < usize::MAX,
        ensures
            final(self).kind == old(self).kind,
            final(self).device == old(self).device,
            final(self).image_cache == old(self).image_cache,
            final(self).initialized == old(self).initialized,
            final(self).sent == old(self).sent,
            final(self).asked@ == old(self).asked@.push((report_id, length)),
            r matches Ok(b) ==> b@.len() == length + 1,
            r is Err ==> r->Err_0 == StreamDeckError::HidError,
    {
        proof {
            self.asked@ = self.asked@.push((report_id, length));
        }
        get_feature_report(&self.device, report_id, length)
    }

    /// Returns serial number of the device, with fill bytes stripped. The
    /// MiraBox families report it as a string descriptor; the others answer a
    /// fixed per-family feature-report query, recorded in the query log. The
    /// 0x01 fill byte some firmwares pad with is dropped at byte level before
    /// decoding, so UTF-8 validity is judged on the report without it.
    pub fn serial_number(&mut self) -> (r: Result<String, StreamDeckError>)
        ensures
            final(self).spec_kind() == old(self).spec_kind(),
            final(self).cache() == old(self).cache(),
            final(self).log() == old(self).log(),
            final(self).is_initialized() == old(self).is_initialized(),
            final(self).queries() == old(self).queries() + spec_serial_number_queries(
                old(self).spec_kind(),
            ),
            r is Err ==> r->Err_0 == StreamDeckError::HidError || r->Err_0
                == StreamDeckError::Utf8Error,
    {
        proof {
            assert(self.asked@ + spec_serial_number_queries(self.kind) =~= (
            if self.kind.spec_is_mirabox() {
                self.asked@
            } else {
                self.asked@.push(spec_serial_number_queries(self.kind)[0])
            }));
        }
        if self.kind.is_mirabox() {
            match hid_serial_number_string(&self.device)? {
                Some(s) => {
                    if s.as_str().is_empty() {
                        Ok(String::from_str("Unknown"))
                    } else {
                        Ok(s)
                    }
                },
                None => Ok(String::from_str("Unknown")),
            }
        } else if matches!(self.kind, Kind::Original | Kind::Mini) {
            let bytes = self.query_feature_report(0x03, 17)?;
            let tail = tail_from(bytes.as_slice(), 5);
            let cleaned = strip_byte_vec(tail.as_slice(), 0x01);
            extract_str(cleaned.as_slice())
        } else if matches!(self.kind, Kind::MiniMk2) {
            let bytes = self.query_feature_report(0x03, 32)?;
            let tail = tail_from(bytes.as_slice(), 5);
            let cleaned = strip_byte_vec(tail.as_slice(), 0x01);
            extract_str(cleaned.as_slice())
        } else {
            let bytes = self.query_feature_report(0x06, 32)?;
            let tail = tail_from(bytes.as_slice(), 2);
            let cleaned = strip_byte_vec(tail.as_slice(), 0x01);
            extract_str(cleaned.as_slice())
        }
    }

    /// Returns firmware version of the StreamDeck, answered by a fixed
    /// per-family feature-report query, recorded in the query log.
    pub fn firmware_version(&mut self) -> (r: Result<String, StreamDeckError>)
        ensures
            final(self).spec_kind() == old(self).spec_kind(),
            final(self).cache() == old(self).cache(),
            final(self).log() == old(self).log(),
            final(self).is_initialized() == old(self).is_initialized(),
            final(self).queries() == old(self).queries() + spec_firmware_version_queries(
                old(self).spec_kind(),
            ),
            r is Err ==> r->Err_0 == StreamDeckError::HidError || r->Err_0
                == StreamDeckError::Utf8Error,
    {
        proof {
            assert(self.asked@ + spec_firmware_version_queries(self.kind) =~= self.asked@.push(
                spec_firmware_version_queries(self.kind)[0],
            ));
        }
        if matches!(self.kind, Kind::Original | Kind::Mini | Kind::MiniMk2) {
            let bytes = self.query_feature_report(0x04, 17)?;
            let tail = tail_from(bytes.as_slice(), 5);
            extract_str(tail.as_slice())
        } else if self.kind.is_mirabox() {
            let bytes = self.query_feature_report(0x01, 20)?;
            extract_str(bytes.as_slice())
        } else {
            let bytes = self.query_feature_report(0x05, 32)?;
            let tail = tail_from(bytes.as_slice(), 6);
            extract_str(tail.as_slice())
        }
    }

    /// Writes one report to the interrupt channel and records it in the log.
    fn write_report(&mut self, buf: &Vec<u8>) -> (r: Result<(), StreamDeckError>)
        ensures
            final(self).kind == old(self).kind,
            final(self).device == old(self).device,
            final(self).image_cache == old(self).image_cache,
            final(self).initialized == old(self).initialized,
            final(self).asked == old(self).asked,
            r is Ok ==> final(self).sent@ == old(self).sent@.push(buf@),
            r is Err ==> final(self).sent@ == old(self).sent@ && r->Err_0
                == StreamDeckError::HidError,
    {
        match write_data(&self.device, buf.as_slice()) {
            Ok(_) => {
                self.record(Ghost(buf@));
                Ok(())
            },
            Err(e) => Err(e),
        }
    }

    /// Sends one feature report over the control channel and records it in
    /// the log.
    fn send_feature(&mut self, buf: &Vec<u8>) -> (r: Result<(), StreamDeckError>)
        ensures
            final(self).kind == old(self).kind,
            final(self).device == old(self).device,
            final(self).image_cache == old(self).image_cache,
            final(self).initialized == old(self).initialized,
            final(self).asked == old(self).asked,
            r is Ok ==> final(self).sent@ == old(self).sent@.push(buf@),
            r is Err ==> final(self).sent@ == old(self).sent@ && r->Err_0
                == StreamDeckError::HidError,
    {
        match send_feature_report(&self.device, buf.as_slice()) {
            Ok(_) => {
                self.record(Ghost(buf@));
                Ok(())
            },
            Err(e) => Err(e),
        }
    }

    /// Reads all possible input from the device: the family's fixed number of
    /// report bytes is read and decoded. A successful result stands in the
    /// decode relation with some report of exactly that length; no report is
    /// written beyond a pending handshake.
    pub fn read_input(&mut self, timeout_ms: Option<u32>) -> (r: Result<
        StreamDeckInput,
        StreamDeckError,
    >)
        ensures
            final(self).spec_kind() == old(self).spec_kind(),
            final(self).queries() == old(self).queries(),
            final(self).cache() == old(self).cache(),
            old(self).log().is_prefix_of(final(self).log()),
            r is Ok ==> final(self).log() == old(self).log() + spec_init_tail(
                old(self).is_initialized(),
                old(self).spec_kind(),
            ),
            r is Ok ==> exists|raw: Seq<u8>|
                raw.len() == spec_read_length(old(self).spec_kind())
                    && #[trigger] crate::spec_decoded_input(old(self).spec_kind(), raw, r),
            r matches Ok(s) ==> (s matches StreamDeckInput::ButtonStateChange(v) ==> v@.len()
                <= 255) && (s matches StreamDeckInput::EncoderStateChange(v) ==> v@.len() <= 255)
                && (s matches StreamDeckInput::EncoderTwist(v) ==> v@.len() <= 255),
    {
        self.initialize()?;

        let length: usize = if matches!(self.kind, Kind::Plus) {
            14
        } else if self.kind.is_mirabox() {
            512
        } else if matches!(self.kind, Kind::Original | Kind::Mini | Kind::MiniMk2) {
            1 + self.kind.key_count() as usize
        } else {
            4 + self.kind.key_count() as usize + self.kind.touchpoint_count() as usize
        };
        assert(length as int == spec_read_length(self.kind));

        let data = read_data(&self.device, length, timeout_ms)?;
        let r = decode_input(self.kind, data.as_slice());
        proof {
            if self.kind == Kind::Plus {
            } else if self.kind.spec_is_mirabox_v1() {
            } else if self.kind == Kind::MiraBoxE3EN {
            } else if self.kind.spec_is_mirabox_v2() {
            } else {
            }
            assert(crate::spec_decoded_input(self.kind, data@, r));
        }
        r
    }

    /// Sets brightness of the device, value range is 0 - 100; out-of-range
    /// values are clamped, never rejected.
    pub fn set_brightness(&mut self, percent: u8) -> (r: Result<(), StreamDeckError>)
        ensures
            final(self).spec_kind() == old(self).spec_kind(),
            final(self).queries() == old(self).queries(),
            final(self).cache() == old(self).cache(),
            old(self).log().is_prefix_of(final(self).log()),
            r is Ok ==> final(self).is_initialized() && final(self).log() == old(self).log()
                + spec_init_tail(old(self).is_initialized(), old(self).spec_kind()) + seq![
                spec_brightness_report(old(self).spec_kind(), spec_clamped(percent)),
            ],
            r is Err ==> final(self).log().is_prefix_of(old(self).log() + spec_init_tail(
                old(self).is_initialized(),
                old(self).spec_kind(),
            ) + seq![spec_brightness_report(old(self).spec_kind(), spec_clamped(percent))]),
    {
        let ghost pre = *old(self);
        if let Err(e) = self.initialize() {
            proof {
                assert(pre.log() + spec_init_reports(pre.spec_kind()) =~= pre.log()
                    + spec_init_tail(pre.is_initialized(), pre.spec_kind()));
                lemma_err_prefix_chain(
                    self.log(),
                    pre.log() + spec_init_tail(pre.is_initialized(), pre.spec_kind()),
                    seq![spec_brightness_report(pre.spec_kind(), spec_clamped(percent))],
                );
            }
            return Err(e);
        }
        let ghost mid = self.log();

        let percent = crate::reports::clamp_percent(percent);
        let buf = brightness_report(self.kind, percent);
        let sent = if self.kind.is_mirabox() {
            self.write_report(&buf)
        } else {
            self.send_feature(&buf)
        };
        proof {
            lemma_log_prefix(pre.log(), self.log().skip(pre.log().len() as int));
            assert(pre.log() + self.log().skip(pre.log().len() as int) =~= self.log());
            if sent is Ok {
                assert(self.log() =~= pre.log() + spec_init_tail(
                    pre.is_initialized(),
                    pre.spec_kind(),
                ) + seq![spec_brightness_report(pre.spec_kind(), spec_clamped(percent))]);
            } else {
                assert(self.log() =~= pre.log() + spec_init_tail(
                    pre.is_initialized(),
                    pre.spec_kind(),
                ));
                lemma_err_prefix_chain(
                    self.log(),
                    pre.log() + spec_init_tail(pre.is_initialized(), pre.spec_kind()),
                    seq![spec_brightness_report(pre.spec_kind(), spec_clamped(percent))],
                );
            }
        }
        sent
    }

    /// Resets the device: a reset feature report for Elgato families, full
    /// brightness and a screen clear for MiraBox families.
    pub fn reset(&mut self) -> (r: Result<(), StreamDeckError>)
        ensures
            final(self).spec_kind() == old(self).spec_kind(),
            final(self).queries() == old(self).queries(),
            final(self).cache() == old(self).cache(),
            old(self).log().is_prefix_of(final(self).log()),
            r is Ok ==> final(self).is_initialized() && final(self).log() == old(self).log()
                + spec_init_tail(old(self).is_initialized(), old(self).spec_kind())
                + spec_reset_reports(old(self).spec_kind()),
            r is Err ==> final(self).log().is_prefix_of(old(self).log() + spec_init_tail(
                old(self).is_initialized(),
                old(self).spec_kind(),
            ) + spec_reset_reports(old(self).spec_kind())),
    {
        let ghost pre = *old(self);
        if let Err(e) = self.initialize() {
            proof {
                assert(pre.log() + spec_init_reports(pre.spec_kind()) =~= pre.log()
                    + spec_init_tail(pre.is_initialized(), pre.spec_kind()));
                lemma_err_prefix_chain(
                    self.log(),
                    pre.log() + spec_init_tail(pre.is_initialized(), pre.spec_kind()),
                    spec_reset_reports(pre.spec_kind()),
                );
            }
            return Err(e);
        }
        let ghost mid_log = self.log();
        let ghost target = pre.log() + spec_init_tail(pre.is_initialized(), pre.spec_kind())
            + spec_reset_reports(pre.spec_kind());

        if self.kind.is_mirabox() {
            let dimmed = self.set_brightness(100);
            proof {
                if dimmed is Err {
                    lemma_err_prefix_chain(
                        self.log(),
                        mid_log + spec_init_tail(true, pre.spec_kind()) + seq![
                            spec_brightness_report(pre.spec_kind(), spec_clamped(100)),
                        ],
                        spec_clear_all_reports(pre.spec_kind()),
                    );
                    assert((mid_log + spec_init_tail(true, pre.spec_kind()) + seq![
                        spec_brightness_report(pre.spec_kind(), spec_clamped(100)),
                    ]) + spec_clear_all_reports(pre.spec_kind()) =~= target);
                    lemma_prefix_extends(pre.log(), mid_log);
                    lemma_prefix_via(pre.log(), mid_log, self.log());
                }
            }
            if let Err(e) = dimmed {
                return Err(e);
            }
            let ghost mid2_log = self.log();
            let cleared = self.clear_all_button_images();
            proof {
                lemma_prefix_extends(pre.log(), mid2_log);
                lemma_prefix_via(pre.log(), mid2_log, self.log());
                if cleared is Err {
                    assert(mid2_log + spec_init_tail(true, pre.spec_kind())
                        + spec_clear_all_reports(pre.spec_kind()) =~= target);
                }
            }
            if let Err(e) = cleared {
                return Err(e);
            }
            proof {
                lemma_log_prefix(pre.log(), self.log().skip(pre.log().len() as int));
                assert(pre.log() + self.log().skip(pre.log().len() as int) =~= self.log());
                assert(self.log() =~= pre.log() + spec_init_tail(
                    pre.is_initialized(),
                    pre.spec_kind(),
                ) + spec_reset_reports(pre.spec_kind()));
            }
            Ok(())
        } else {
            let buf = reset_report(self.kind);
            let sent = self.send_feature(&buf);
            proof {
                lemma_log_prefix(pre.log(), self.log().skip(pre.log().len() as int));
                assert(pre.log() + self.log().skip(pre.log().len() as int) =~= self.log());
                if sent is Ok {
                    assert(self.log() =~= pre.log() + spec_init_tail(
                        pre.is_initialized(),
                        pre.spec_kind(),
                    ) + spec_reset_reports(pre.spec_kind()));
                } else {
                    assert(self.log() =~= pre.log() + spec_init_tail(
                        pre.is_initialized(),
                        pre.spec_kind(),
                    ));
                    lemma_err_prefix_chain(
                        self.log(),
                        pre.log() + spec_init_tail(pre.is_initialized(), pre.spec_kind()),
                        spec_reset_reports(pre.spec_kind()),
                    );
                }
            }
            sent
        }
    }

    /// Transfers one image to one key right away: the vendor announcement for
    /// MiraBox families, then every page of the image.
    fn send_image(&mut self, key: u8, image_data: &Vec<u8>) -> (r: Result<(), StreamDeckError>)
        ensures
            final(self).kind == old(self).kind,
            final(self).device == old(self).device,
            final(self).image_cache == old(self).image_cache,
            final(self).initialized == old(self).initialized,
            final(self).asked == old(self).asked,
            old(self).log().is_prefix_of(final(self).log()),
            r is Err ==> final(self).log().is_prefix_of(old(self).log()
                + spec_send_image_reports(old(self).kind, key, image_data@)),
            r is Ok ==> key < old(self).kind.spec_key_count() && old(self).kind.spec_is_visual() && final(self).log() == old(self).log()
                + spec_send_image_reports(old(self).kind, key, image_data@),
            key >= old(self).kind.spec_key_count() ==> r == Err::<(), StreamDeckError>(
                StreamDeckError::InvalidKeyIndex,
            ) && final(self).log() == old(self).log(),
            key < old(self).kind.spec_key_count() && !old(self).kind.spec_is_visual() ==> r
                == Err::<(), StreamDeckError>(StreamDeckError::NoScreen) && final(self).log()
                == old(self).log(),
    {
        let ghost pre = *old(self);
        if key >= self.kind.key_count() {
            proof {
                lemma_log_prefix(
                    self.log(),
                    spec_send_image_reports(self.kind, key, image_data@),
                );
            }
            return Err(StreamDeckError::InvalidKeyIndex);
        }
        let phys: u8 = if matches!(self.kind, Kind::Original) {
            crate::util::flip_key_index(&self.kind, key)
        } else if matches!(
            self.kind,
            Kind::Akp153 | Kind::Akp153E | Kind::Akp153R | Kind::MiraBoxHSV293S,
        ) {
            crate::util::elgato_to_ajazz153(&self.kind, key)
        } else if matches!(self.kind, Kind::Akp815) {
            crate::util::inverse_key_index(&self.kind, key)
        } else {
            key
        };
        proof {
            if self.kind == Kind::Original {
                crate::util::lemma_flip_key_involution(self.kind, key as int);
            }
            assert(phys as int == spec_key_to_physical(self.kind, key as int));
        }

        if !self.kind.is_visual() {
            proof {
                lemma_log_prefix(
                    self.log(),
                    spec_send_image_reports(self.kind, key, image_data@),
                );
            }
            return Err(StreamDeckError::NoScreen);
        }

        let pages = match command_pages(
            PagedCommand::KeyImage(self.kind, phys),
            image_data.as_slice(),
        ) {
            Ok(p) => p,
            Err(e) => {
                proof {
                    lemma_log_prefix(
                        self.log(),
                        spec_send_image_reports(self.kind, key, image_data@),
                    );
                }
                return Err(e);
            },
        };

        if self.kind.is_mirabox() {
            let bat = mirabox_bat_packet(self.kind, phys, image_data.len());
            if self.write_report(&bat).is_err() {
                proof {
                    lemma_log_prefix(
                        self.log(),
                        spec_send_image_reports(self.kind, key, image_data@),
                    );
                }
                return Err(StreamDeckError::HidError);
            }
        }
        let ghost announce: Seq<Seq<u8>> = if pre.kind.spec_is_mirabox() {
            seq![spec_bat_packet(pre.kind, phys, image_data@.len())]
        } else {
            Seq::empty()
        };
        let ghost reports = spec_command_reports(
            PagedCommand::KeyImage(pre.kind, phys),
            image_data@,
        );
        proof {
            assert(self.log() =~= pre.log() + announce + reports.take(0));
        }

        let mut i: usize = 0;
        while i < pages.len()
            invariant
                pre == *old(self),
                i <= pages@.len(),
                self.kind == pre.kind,
                self.device == pre.device,
                self.image_cache == pre.image_cache,
                self.initialized == pre.initialized,
                self.asked == pre.asked,
                key < pre.kind.spec_key_count(),
                pre.kind.spec_is_visual(),
                phys as int == spec_key_to_physical(pre.kind, key as int),
                announce == (if pre.kind.spec_is_mirabox() {
                    seq![spec_bat_packet(pre.kind, phys, image_data@.len())]
                } else {
                    Seq::<Seq<u8>>::empty()
                }),
                reports == spec_command_reports(
                    PagedCommand::KeyImage(pre.kind, phys),
                    image_data@,
                ),
                pages@.len() == reports.len(),
                forall|j: int| 0 <= j < pages@.len() ==> (#[trigger] pages@[j])@ == reports[j],
                self.log() == pre.log() + announce + reports.take(i as int),
            decreases pages@.len() - i,
        {
            let sent = self.write_report(&pages[i]);
            proof {
                lemma_log_prefix(pre.log(), self.log().skip(pre.log().len() as int));
                assert(pre.log() + self.log().skip(pre.log().len() as int) =~= self.log());
                if sent is Err {
                    lemma_take_prefix(reports, i as int);
                    lemma_prefix_concat_left(
                        pre.log() + announce,
                        reports.take(i as int),
                        reports,
                    );
                    assert((pre.log() + announce) + reports =~= pre.log()
                        + spec_send_image_reports(pre.kind, key, image_data@));
                }
            }
            if sent.is_err() {
                return Err(StreamDeckError::HidError);
            }
            proof {
                assert(reports.take(i + 1) =~= reports.take(i as int).push(reports[i as int]));
                assert(self.log() =~= pre.log() + announce + reports.take(i + 1));
            }
            i += 1;
        }
        proof {
            assert(reports.take(reports.len() as int) =~= reports);
            assert(self.log() =~= pre.log() + spec_send_image_reports(pre.kind, key, image_data@));
            lemma_log_prefix(pre.log(), self.log().skip(pre.log().len() as int));
            assert(pre.log() + self.log().skip(pre.log().len() as int) =~= self.log());
        }
        Ok(())
    }

    /// Writes image data to the device's pending-image cache; changes must be
    /// flushed with `flush` before they appear on the device. An index beyond
    /// the key grid is rejected, except for the keys of the AKP03 family that
    /// have no display, where the write is a no-op.
    pub fn write_image(&mut self, key: u8, image_data: &[u8]) -> (r: Result<(), StreamDeckError>)
        ensures
            final(self).spec_kind() == old(self).spec_kind(),
            final(self).queries() == old(self).queries(),
            final(self).is_initialized() == old(self).is_initialized(),
            final(self).log() == old(self).log(),
            spec_is_akp03_family(old(self).spec_kind()) && 6 <= key < 9 ==> r is Ok && final(self).cache() == old(self).cache(),
            !(spec_is_akp03_family(old(self).spec_kind()) && 6 <= key < 9) && key >= old(self).spec_kind().spec_key_count() ==> r == Err::<(), StreamDeckError>(
                StreamDeckError::InvalidKeyIndex,
            ) && final(self).cache() == old(self).cache(),
            !(spec_is_akp03_family(old(self).spec_kind()) && 6 <= key) && key < old(self).spec_kind().spec_key_count() ==> r is Ok && final(self).cache() == old(self).cache().push((key, image_data@)),
    {
        if matches!(self.kind, Kind::Akp03 | Kind::Akp03E | Kind::Akp03R) && key >= 6 {
            // Only the first six keys of this family have screens; writes to
            // the three plain buttons are silently dropped.
            if key < self.kind.key_count() {
                return Ok(());
            }
        }
        if key >= self.kind.key_count() {
            return Err(StreamDeckError::InvalidKeyIndex);
        }
        let data = crate::util::tail_from(image_data, 0);
        proof {
            assert(data@ =~= image_data@);
        }
        self.image_cache.push(ImageCache { key, image_data: data });
        proof {
            assert(self.cache() =~= old(self).cache().push((key, image_data@)));
        }
        Ok(())
    }

    /// Flushes the pending image writes to the device: every cached image in
    /// insertion order, then the commit command for MiraBox families, then the
    /// cache is cleared. Flushing an empty cache performs no transfer; once
    /// the session is initialized it performs no transport write at all.
    pub fn flush(&mut self) -> (r: Result<(), StreamDeckError>)
        ensures
            final(self).spec_kind() == old(self).spec_kind(),
            final(self).queries() == old(self).queries(),
            old(self).log().is_prefix_of(final(self).log()),
            r is Ok && old(self).cache().len() == 0 ==> final(self).log() == old(self).log()
                + spec_init_tail(old(self).is_initialized(), old(self).spec_kind()),
            r is Ok && old(self).cache().len() > 0 ==> final(self).log() == old(self).log()
                + spec_init_tail(old(self).is_initialized(), old(self).spec_kind())
                + spec_flush_reports(old(self).spec_kind(), old(self).cache()),
            r is Ok ==> final(self).cache() == Seq::<(u8, Seq<u8>)>::empty() && final(self).is_initialized(),
            r is Err ==> final(self).cache() == old(self).cache(),
            r is Err ==> final(self).log().is_prefix_of(old(self).log() + spec_init_tail(
                old(self).is_initialized(),
                old(self).spec_kind(),
            ) + spec_flush_images(old(self).spec_kind(), old(self).cache())),
            old(self).is_initialized() && old(self).cache().len() == 0 ==> r is Ok && final(self).log() == old(self).log(),
    {
        let ghost pre = *old(self);
        if let Err(e) = self.initialize() {
            proof {
                let intended = pre.log() + spec_init_tail(pre.is_initialized(), pre.spec_kind())
                    + spec_flush_images(pre.spec_kind(), pre.cache());
                lemma_log_prefix(
                    pre.log() + spec_init_tail(pre.is_initialized(), pre.spec_kind()),
                    spec_flush_images(pre.spec_kind(), pre.cache()),
                );
                assert(pre.log() + spec_init_tail(pre.is_initialized(), pre.spec_kind())
                    =~= pre.log() + spec_init_reports(pre.spec_kind()));
                lemma_prefix_via(
                    self.log(),
                    pre.log() + spec_init_tail(pre.is_initialized(), pre.spec_kind()),
                    intended,
                );
            }
            return Err(e);
        }
        let ghost mid_log = self.log();

        if self.image_cache.len() == 0 {
            proof {
                assert(self.cache() =~= Seq::<(u8, Seq<u8>)>::empty());
                if pre.is_initialized() {
                    assert(self.log() =~= pre.log());
                }
            }
            return Ok(());
        }

        let mut i: usize = 0;
        while i < self.image_cache.len()
            invariant
                pre == *old(self),
                i <= self.image_cache@.len(),
                self.kind == pre.kind,
                self.initialized,
                self.asked == pre.asked,
                self.cache() == pre.cache(),
                self.log() == mid_log + spec_flush_images_upto(pre.kind, pre.cache(), i as nat),
                mid_log == pre.log() + spec_init_tail(pre.is_initialized(), pre.spec_kind()),
            decreases self.image_cache@.len() - i,
        {
            let key = self.image_cache[i].key;
            let data = clone_bytes(&self.image_cache[i].image_data);
            let ghost before_log = self.log();
            let sent = self.send_image(key, &data);
            proof {
                lemma_prefix_extends(pre.log(), before_log);
                lemma_prefix_via(pre.log(), before_log, self.log());
                if sent is Err {
                    let entry = pre.cache()[i as int];
                    let intended = pre.log() + spec_init_tail(
                        pre.is_initialized(),
                        pre.spec_kind(),
                    ) + spec_flush_images(pre.spec_kind(), pre.cache());
                    lemma_flush_images_upto_step(pre.kind, pre.cache(), i as nat);
                    assert(before_log + spec_send_image_reports(pre.kind, entry.0, entry.1)
                        =~= mid_log + spec_flush_images_upto(
                        pre.kind,
                        pre.cache(),
                        i as nat + 1,
                    ));
                    lemma_flush_upto_prefix(pre.kind, pre.cache(), i as nat + 1);
                    lemma_flush_images_upto_full(pre.kind, pre.cache());
                    lemma_prefix_concat_left(
                        mid_log,
                        spec_flush_images_upto(pre.kind, pre.cache(), i as nat + 1),
                        spec_flush_images_upto(pre.kind, pre.cache(), pre.cache().len()),
                    );
                    assert(mid_log + spec_flush_images_upto(
                        pre.kind,
                        pre.cache(),
                        pre.cache().len(),
                    ) =~= intended);
                    lemma_prefix_via(
                        self.log(),
                        before_log + spec_send_image_reports(pre.kind, entry.0, entry.1),
                        intended,
                    );
                }
            }
            if let Err(e) = sent {
                return Err(e);
            }
            proof {
                lemma_flush_images_upto_step(pre.kind, pre.cache(), i as nat);
                assert(self.log() =~= mid_log + spec_flush_images_upto(
                    pre.kind,
                    pre.cache(),
                    i as nat + 1,
                ));
            }
            i += 1;
        }
        proof {
            lemma_flush_images_upto_full(pre.kind, pre.cache());
        }

        if self.kind.is_mirabox() {
            let stp = mirabox_command_packet(self.kind, MiraBoxCommand::Commit);
            let sent = self.write_report(&stp);
            proof {
                lemma_log_prefix(pre.log(), self.log().skip(pre.log().len() as int));
                assert(pre.log() + self.log().skip(pre.log().len() as int) =~= self.log());
                if sent is Err {
                    lemma_prefix_self(self.log());
                    assert(self.log() =~= pre.log() + spec_init_tail(
                        pre.is_initialized(),
                        pre.spec_kind(),
                    ) + spec_flush_images(pre.spec_kind(), pre.cache()));
                }
            }
            if sent.is_err() {
                return Err(StreamDeckError::HidError);
            }
        }

        self.image_cache = Vec::new();
        proof {
            assert(self.cache() =~= Seq::<(u8, Seq<u8>)>::empty());
            assert(self.log() =~= pre.log() + spec_init_tail(
                pre.is_initialized(),
                pre.spec_kind(),
            ) + spec_flush_reports(pre.spec_kind(), pre.cache()));
            lemma_log_prefix(pre.log(), self.log().skip(pre.log().len() as int));
            assert(pre.log() + self.log().skip(pre.log().len() as int) =~= self.log());
        }
        Ok(())
    }

    /// Sets one button's image to blank: the vendor clear command for MiraBox
    /// families, an immediate blank-image transfer for the others.
    pub fn clear_button_image(&mut self, key: u8) -> (r: Result<(), StreamDeckError>)
        ensures
            final(self).spec_kind() == old(self).spec_kind(),
            final(self).queries() == old(self).queries(),
            final(self).cache() == old(self).cache(),
            old(self).log().is_prefix_of(final(self).log()),
            r is Ok ==> final(self).is_initialized() && final(self).log() == old(self).log()
                + spec_init_tail(old(self).is_initialized(), old(self).spec_kind())
                + spec_clear_button_reports(old(self).spec_kind(), key),
            r is Err ==> final(self).log().is_prefix_of(old(self).log() + spec_init_tail(
                old(self).is_initialized(),
                old(self).spec_kind(),
            ) + spec_clear_button_reports(old(self).spec_kind(), key)),
    {
        let ghost pre = *old(self);
        if let Err(e) = self.initialize() {
            proof {
                assert(pre.log() + spec_init_reports(pre.spec_kind()) =~= pre.log()
                    + spec_init_tail(pre.is_initialized(), pre.spec_kind()));
                lemma_err_prefix_chain(
                    self.log(),
                    pre.log() + spec_init_tail(pre.is_initialized(), pre.spec_kind()),
                    spec_clear_button_reports(pre.spec_kind(), key),
                );
            }
            return Err(e);
        }

        if self.kind.is_mirabox() {
            let phys: u8 = if matches!(self.kind, Kind::Akp815) {
                crate::util::inverse_key_index(&self.kind, key)
            } else if matches!(
                self.kind,
                Kind::Akp153 | Kind::Akp153E | Kind::Akp153R | Kind::MiraBoxHSV293S,
            ) {
                crate::util::elgato_to_ajazz153(&self.kind, key)
            } else {
                key
            };
            proof {
                assert(phys as int == spec_key_to_physical(self.kind, key as int));
            }
            let buf = mirabox_cle_packet(self.kind, phys);
            let sent = self.write_report(&buf);
            proof {
                lemma_log_prefix(pre.log(), self.log().skip(pre.log().len() as int));
                assert(pre.log() + self.log().skip(pre.log().len() as int) =~= self.log());
                if sent is Ok {
                    assert(self.log() =~= pre.log() + spec_init_tail(
                        pre.is_initialized(),
                        pre.spec_kind(),
                    ) + spec_clear_button_reports(pre.spec_kind(), key));
                } else {
                    assert(self.log() =~= pre.log() + spec_init_tail(
                        pre.is_initialized(),
                        pre.spec_kind(),
                    ));
                    lemma_err_prefix_chain(
                        self.log(),
                        pre.log() + spec_init_tail(pre.is_initialized(), pre.spec_kind()),
                        spec_clear_button_reports(pre.spec_kind(), key),
                    );
                }
            }
            sent
        } else {
            let blank = generate_blank_image(self.kind)?;
            let ghost before_log = self.log();
            let sent = self.send_image(key, &blank);
            proof {
                lemma_log_prefix(pre.log(), self.log().skip(pre.log().len() as int));
                assert(pre.log() + self.log().skip(pre.log().len() as int) =~= self.log());
                if sent is Ok {
                    assert(self.log() =~= pre.log() + spec_init_tail(
                        pre.is_initialized(),
                        pre.spec_kind(),
                    ) + spec_clear_button_reports(pre.spec_kind(), key));
                } else {
                    assert(before_log + spec_send_image_reports(pre.kind, key, blank@)
                        =~= pre.log() + spec_init_tail(pre.is_initialized(), pre.spec_kind())
                        + spec_clear_button_reports(pre.spec_kind(), key));
                }
            }
            sent
        }
    }

    /// Sets every button's image to blank: the sentinel vendor clear (plus a
    /// commit for the second MiraBox generation), or one blank image per key.
    pub fn clear_all_button_images(&mut self) -> (r: Result<(), StreamDeckError>)
        ensures
            final(self).spec_kind() == old(self).spec_kind(),
            final(self).queries() == old(self).queries(),
            final(self).cache() == old(self).cache(),
            old(self).log().is_prefix_of(final(self).log()),
            r is Ok ==> final(self).is_initialized() && final(self).log() == old(self).log()
                + spec_init_tail(old(self).is_initialized(), old(self).spec_kind())
                + spec_clear_all_reports(old(self).spec_kind()),
            r is Err ==> final(self).log().is_prefix_of(old(self).log() + spec_init_tail(
                old(self).is_initialized(),
                old(self).spec_kind(),
            ) + spec_clear_all_reports(old(self).spec_kind())),
    {
        let ghost pre = *old(self);
        if let Err(e) = self.initialize() {
            proof {
                assert(pre.log() + spec_init_reports(pre.spec_kind()) =~= pre.log()
                    + spec_init_tail(pre.is_initialized(), pre.spec_kind()));
                lemma_err_prefix_chain(
                    self.log(),
                    pre.log() + spec_init_tail(pre.is_initialized(), pre.spec_kind()),
                    spec_clear_all_reports(pre.spec_kind()),
                );
            }
            return Err(e);
        }
        let ghost mid_log = self.log();

        if self.kind.is_mirabox_v1() {
            let ghost before_log = self.log();
            let sent = self.clear_button_image(0xff);
            proof {
                lemma_prefix_extends(pre.log(), before_log);
                lemma_prefix_via(pre.log(), before_log, self.log());
                if sent is Ok {
                    assert(spec_key_to_physical(pre.spec_kind(), 0xff) == 0xff);
                    assert(self.log() =~= pre.log() + spec_init_tail(
                        pre.is_initialized(),
                        pre.spec_kind(),
                    ) + spec_clear_all_reports(pre.spec_kind()));
                } else {
                    assert(spec_key_to_physical(pre.spec_kind(), 0xff) == 0xff);
                    assert(before_log + spec_init_tail(true, pre.spec_kind())
                        + spec_clear_button_reports(pre.spec_kind(), 0xff) =~= pre.log()
                        + spec_init_tail(pre.is_initialized(), pre.spec_kind())
                        + spec_clear_all_reports(pre.spec_kind()));
                }
            }
            sent
        } else if self.kind.is_mirabox_v2() {
            let ghost before_log = self.log();
            let cleared = self.clear_button_image(0xff);
            proof {
                lemma_prefix_extends(pre.log(), before_log);
                lemma_prefix_via(pre.log(), before_log, self.log());
                if cleared is Err {
                    assert(spec_key_to_physical(pre.spec_kind(), 0xff) == 0xff);
                    lemma_err_prefix_chain(
                        self.log(),
                        before_log + spec_init_tail(true, pre.spec_kind())
                            + spec_clear_button_reports(pre.spec_kind(), 0xff),
                        seq![spec_stp_packet(pre.spec_kind())],
                    );
                    assert((before_log + spec_init_tail(true, pre.spec_kind())
                        + spec_clear_button_reports(pre.spec_kind(), 0xff)) + seq![
                        spec_stp_packet(pre.spec_kind()),
                    ] =~= pre.log() + spec_init_tail(pre.is_initialized(), pre.spec_kind())
                        + spec_clear_all_reports(pre.spec_kind()));
                }
            }
            if let Err(e) = cleared {
                return Err(e);
            }
            let ghost mid2_log = self.log();
            let stp = mirabox_command_packet(self.kind, MiraBoxCommand::Commit);
            let sent = self.write_report(&stp);
            proof {
                lemma_prefix_extends(pre.log(), mid2_log);
                lemma_prefix_via(pre.log(), mid2_log, self.log());
                if sent is Ok {
                    assert(spec_key_to_physical(pre.spec_kind(), 0xff) == 0xff);
                    assert(self.log() =~= pre.log() + spec_init_tail(
                        pre.is_initialized(),
                        pre.spec_kind(),
                    ) + spec_clear_all_reports(pre.spec_kind()));
                } else {
                    assert(spec_key_to_physical(pre.spec_kind(), 0xff) == 0xff);
                    lemma_prefix_self(self.log());
                    assert(self.log().is_prefix_of(pre.log() + spec_init_tail(
                        pre.is_initialized(),
                        pre.spec_kind(),
                    ) + spec_clear_all_reports(pre.spec_kind()))) by {
                        assert(self.log() =~= (pre.log() + spec_init_tail(
                            pre.is_initialized(),
                            pre.spec_kind(),
                        ) + spec_clear_all_reports(pre.spec_kind())).subrange(
                            0,
                            self.log().len() as int,
                        ));
                    }
                }
            }
            sent
        } else {
            proof {
                assert(self.log() =~= mid_log + spec_clear_keys_reports(pre.spec_kind(), 0));
            }
            let kc = self.kind.key_count();
            let mut i: u8 = 0;
            while i < kc
                invariant
                    pre == *old(self),
                    i <= kc,
                    kc == self.kind.spec_key_count(),
                    self.kind == pre.spec_kind(),
                    !self.kind.spec_is_mirabox(),
                    self.initialized,
                    self.asked == pre.asked,
                    self.cache() == pre.cache(),
                    mid_log == pre.log() + spec_init_tail(pre.is_initialized(), pre.spec_kind()),
                    self.log() == mid_log + spec_clear_keys_reports(pre.spec_kind(), i as nat),
                decreases kc - i,
            {
                let ghost before_log = self.log();
                let sent = self.clear_button_image(i);
                proof {
                    lemma_prefix_extends(pre.log(), before_log);
                    lemma_prefix_via(pre.log(), before_log, self.log());
                    if sent is Err {
                        assert(before_log + spec_init_tail(true, pre.spec_kind())
                            + spec_clear_button_reports(pre.spec_kind(), i) =~= mid_log
                            + spec_clear_keys_reports(pre.spec_kind(), i as nat + 1));
                        lemma_clear_keys_prefix(
                            pre.spec_kind(),
                            i as nat + 1,
                            pre.spec_kind().spec_key_count() as nat,
                        );
                        lemma_prefix_concat_left(
                            mid_log,
                            spec_clear_keys_reports(pre.spec_kind(), i as nat + 1),
                            spec_clear_keys_reports(
                                pre.spec_kind(),
                                pre.spec_kind().spec_key_count() as nat,
                            ),
                        );
                        assert(mid_log + spec_clear_keys_reports(
                            pre.spec_kind(),
                            pre.spec_kind().spec_key_count() as nat,
                        ) =~= pre.log() + spec_init_tail(pre.is_initialized(), pre.spec_kind())
                            + spec_clear_all_reports(pre.spec_kind()));
                        lemma_prefix_via(
                            self.log(),
                            before_log + spec_init_tail(true, pre.spec_kind())
                                + spec_clear_button_reports(pre.spec_kind(), i),
                            mid_log + spec_clear_keys_reports(
                                pre.spec_kind(),
                                pre.spec_kind().spec_key_count() as nat,
                            ),
                        );
                    }
                }
                if sent.is_err() {
                    return sent;
                }
                proof {
                    assert(self.log() =~= mid_log + spec_clear_keys_reports(
                        pre.spec_kind(),
                        i as nat + 1,
                    ));
                }
                i += 1;
            }
            proof {
                lemma_log_prefix(pre.log(), self.log().skip(pre.log().len() as int));
                assert(pre.log() + self.log().skip(pre.log().len() as int) =~= self.log());
                assert(self.log() =~= pre.log() + spec_init_tail(
                    pre.is_initialized(),
                    pre.spec_kind(),
                ) + spec_clear_all_reports(pre.spec_kind()));
            }
            Ok(())
        }
    }

    /// Sets specified button's image; changes must be flushed with `flush`
    /// before they appear on the device.
    pub fn set_button_image(&mut self, key: u8, image: &ImageData) -> (r: Result<
        (),
        StreamDeckError,
    >)
        requires
            image.wf(),
        ensures
            final(self).spec_kind() == old(self).spec_kind(),
            final(self).queries() == old(self).queries(),
            old(self).log().is_prefix_of(final(self).log()),
            r is Ok ==> final(self).is_initialized() && final(self).log() == old(self).log()
                + spec_init_tail(old(self).is_initialized(), old(self).spec_kind()),
            (!old(self).spec_kind().spec_is_mirabox() || old(self).is_initialized()) && key < old(
                self,
            ).spec_kind().spec_key_count() ==> r is Ok,
            r is Ok && !(spec_is_akp03_family(old(self).spec_kind()) && 6 <= key) && key < old(
                self,
            ).spec_kind().spec_key_count() ==> final(self).cache() == old(self).cache().push(
                (
                    key,
                    spec_convert_image(
                        old(self).spec_kind(),
                        image.pixels@,
                        image.width as int,
                        image.height as int,
                    ),
                ),
            ),
    {
        let ghost pre = *old(self);
        self.initialize()?;
        let data = match convert_image(self.kind, image) {
            Ok(d) => d,
            Err(e) => {
                proof {
                    lemma_log_prefix(pre.log(), self.log().skip(pre.log().len() as int));
                    assert(pre.log() + self.log().skip(pre.log().len() as int) =~= self.log());
                }
                return Err(e);
            },
        };
        let sent = self.write_image(key, data.as_slice());
        proof {
            lemma_log_prefix(pre.log(), self.log().skip(pre.log().len() as int));
            assert(pre.log() + self.log().skip(pre.log().len() as int) =~= self.log());
        }
        sent
    }

    /// Uploads a full-screen logo image through the vendor envelope; only
    /// MiraBox families with a screen support it. The source must fit the
    /// resampler's dimension range.
    pub fn set_logo_image(&mut self, image: &ImageData) -> (r: Result<(), StreamDeckError>)
        requires
            image.wf(),
            image.width <= 0xffff,
            image.height <= 0xffff,
        ensures
            final(self).spec_kind() == old(self).spec_kind(),
            final(self).queries() == old(self).queries(),
            final(self).cache() == old(self).cache(),
            old(self).log().is_prefix_of(final(self).log()),
            !old(self).spec_kind().spec_is_mirabox() ==> r == Err::<(), StreamDeckError>(
                StreamDeckError::UnsupportedOperation,
            ) && final(self).log() == old(self).log(),
            r is Ok ==> final(self).is_initialized() && old(self).spec_kind().spec_is_mirabox()
                && old(self).spec_kind().spec_lcd_strip_size() is Some && final(self).log() == old(
                self,
            ).log() + spec_init_tail(old(self).is_initialized(), old(self).spec_kind()) + seq![
                spec_logo_header_packet(old(self).spec_kind()),
            ] + spec_command_reports(
                PagedCommand::Logo(old(self).spec_kind()),
                spec_logo_payload(image.pixels@, image.width as int, image.height as int),
            ),
            r is Err && old(self).spec_kind().spec_is_mirabox() && old(
                self,
            ).spec_kind().spec_lcd_strip_size() is Some ==> final(self).log().is_prefix_of(
                old(self).log() + spec_init_tail(old(self).is_initialized(), old(self).spec_kind())
                    + seq![spec_logo_header_packet(old(self).spec_kind())] + spec_command_reports(
                    PagedCommand::Logo(old(self).spec_kind()),
                    spec_logo_payload(image.pixels@, image.width as int, image.height as int),
                ),
            ),
            r is Err && !(old(self).spec_kind().spec_is_mirabox() && old(
                self,
            ).spec_kind().spec_lcd_strip_size() is Some) ==> final(self).log().is_prefix_of(
                old(self).log() + spec_init_tail(old(self).is_initialized(), old(self).spec_kind()),
            ),
            old(self).spec_kind().spec_is_mirabox() && old(
                self,
            ).spec_kind().spec_lcd_strip_size() is None && old(self).is_initialized() ==> r
                == Err::<(), StreamDeckError>(StreamDeckError::UnsupportedOperation),
            old(self).spec_kind().spec_is_mirabox() && old(
                self,
            ).spec_kind().spec_lcd_strip_size() is Some && r is Err ==> r->Err_0
                == StreamDeckError::HidError,
    {
        let ghost pre = *old(self);
        let ghost base = pre.log() + spec_init_tail(pre.is_initialized(), pre.spec_kind());
        let ghost intended = base + seq![spec_logo_header_packet(pre.spec_kind())]
            + spec_command_reports(
            PagedCommand::Logo(pre.spec_kind()),
            spec_logo_payload(image.pixels@, image.width as int, image.height as int),
        );
        if let Err(e) = self.initialize() {
            proof {
                assert(pre.log() + spec_init_reports(pre.spec_kind()) =~= base);
                if pre.spec_kind().spec_is_mirabox()
                    && pre.spec_kind().spec_lcd_strip_size() is Some {
                    lemma_err_prefix_chain(
                        self.log(),
                        base,
                        seq![spec_logo_header_packet(pre.spec_kind())],
                    );
                    lemma_err_prefix_chain(
                        self.log(),
                        base + seq![spec_logo_header_packet(pre.spec_kind())],
                        spec_command_reports(
                            PagedCommand::Logo(pre.spec_kind()),
                            spec_logo_payload(
                                image.pixels@,
                                image.width as int,
                                image.height as int,
                            ),
                        ),
                    );
                }
            }
            return Err(e);
        }

        if !self.kind.is_mirabox() {
            proof {
                assert(base =~= pre.log());
                lemma_prefix_self(self.log());
            }
            return Err(StreamDeckError::UnsupportedOperation);
        }
        if self.kind.lcd_strip_size().is_none() {
            proof {
                lemma_log_prefix(pre.log(), self.log().skip(pre.log().len() as int));
                assert(pre.log() + self.log().skip(pre.log().len() as int) =~= self.log());
                lemma_prefix_self(self.log());
                assert(self.log() =~= base);
            }
            return Err(StreamDeckError::UnsupportedOperation);
        }

        let header = mirabox_command_packet(self.kind, MiraBoxCommand::LogoHeader);
        let sent_header = self.write_report(&header);
        proof {
            lemma_log_prefix(pre.log(), self.log().skip(pre.log().len() as int));
            assert(pre.log() + self.log().skip(pre.log().len() as int) =~= self.log());
            if sent_header is Err {
                assert(self.log() =~= base);
                lemma_err_prefix_chain(
                    self.log(),
                    base,
                    seq![spec_logo_header_packet(pre.spec_kind())],
                );
                lemma_err_prefix_chain(
                    self.log(),
                    base + seq![spec_logo_header_packet(pre.spec_kind())],
                    spec_command_reports(
                        PagedCommand::Logo(pre.spec_kind()),
                        spec_logo_payload(image.pixels@, image.width as int, image.height as int),
                    ),
                );
            }
        }
        if sent_header.is_err() {
            return Err(StreamDeckError::HidError);
        }

        let filled = crate::images::logo_pixels(image);
        let pages = match command_pages(PagedCommand::Logo(self.kind), filled.as_slice()) {
            Ok(p) => p,
            Err(e) => {
                proof {
                    lemma_log_prefix(pre.log(), self.log().skip(pre.log().len() as int));
                    assert(pre.log() + self.log().skip(pre.log().len() as int) =~= self.log());
                    lemma_prefix_self(self.log());
                    assert(self.log() =~= base + seq![spec_logo_header_packet(pre.spec_kind())]);
                    lemma_err_prefix_chain(
                        self.log(),
                        base + seq![spec_logo_header_packet(pre.spec_kind())],
                        spec_command_reports(
                            PagedCommand::Logo(pre.spec_kind()),
                            spec_logo_payload(
                                image.pixels@,
                                image.width as int,
                                image.height as int,
                            ),
                        ),
                    );
                }
                return Err(e);
            },
        };
        let ghost reports = spec_command_reports(
            PagedCommand::Logo(pre.spec_kind()),
            spec_logo_payload(image.pixels@, image.width as int, image.height as int),
        );
        let ghost mid_log = self.log();
        proof {
            assert(self.log() =~= mid_log + reports.take(0));
        }

        let mut i: usize = 0;
        while i < pages.len()
            invariant
                pre == *old(self),
                i <= pages@.len(),
                self.kind == pre.spec_kind(),
                pre.spec_kind().spec_is_mirabox(),
                pre.spec_kind().spec_lcd_strip_size() is Some,
                self.initialized,
                self.asked == pre.asked,
                self.cache() == pre.cache(),
                pages@.len() == reports.len(),
                forall|j: int| 0 <= j < pages@.len() ==> (#[trigger] pages@[j])@ == reports[j],
                mid_log == pre.log() + spec_init_tail(pre.is_initialized(), pre.spec_kind())
                    + seq![spec_logo_header_packet(pre.spec_kind())],
                reports == spec_command_reports(
                    PagedCommand::Logo(pre.spec_kind()),
                    spec_logo_payload(image.pixels@, image.width as int, image.height as int),
                ),
                self.log() == mid_log + reports.take(i as int),
            decreases pages@.len() - i,
        {
            let sent = self.write_report(&pages[i]);
            proof {
                lemma_log_prefix(pre.log(), self.log().skip(pre.log().len() as int));
                assert(pre.log() + self.log().skip(pre.log().len() as int) =~= self.log());
                if sent is Err {
                    lemma_take_prefix(reports, i as int);
                    lemma_prefix_concat_left(mid_log, reports.take(i as int), reports);
                }
            }
            if sent.is_err() {
                return Err(StreamDeckError::HidError);
            }
            proof {
                assert(reports.take(i + 1) =~= reports.take(i as int).push(reports[i as int]));
                assert(self.log() =~= mid_log + reports.take(i + 1));
            }
            i += 1;
        }
        proof {
            assert(reports.take(reports.len() as int) =~= reports);
            assert(self.log() =~= pre.log() + spec_init_tail(
                pre.is_initialized(),
                pre.spec_kind(),
            ) + seq![spec_logo_header_packet(pre.spec_kind())] + reports);
            lemma_log_prefix(pre.log(), self.log().skip(pre.log().len() as int));
            assert(pre.log() + self.log().skip(pre.log().len() as int) =~= self.log());
        }
        Ok(())
    }

    /// Sets specified touch point's led strip color
    pub fn set_touchpoint_color(&mut self, point: u8, red: u8, green: u8, blue: u8) -> (r: Result<
        (),
        StreamDeckError,
    >)
        ensures
            final(self).spec_kind() == old(self).spec_kind(),
            final(self).queries() == old(self).queries(),
            final(self).cache() == old(self).cache(),
            old(self).log().is_prefix_of(final(self).log()),
            point >= old(self).spec_kind().spec_touchpoint_count() && (!old(
                self,
            ).spec_kind().spec_is_mirabox() || old(self).is_initialized()) ==> r == Err::<
                (),
                StreamDeckError,
            >(StreamDeckError::InvalidTouchPointIndex) && final(self).log() == old(self).log(),
            r is Ok ==> point < old(self).spec_kind().spec_touchpoint_count() && final(self).log()
                == old(self).log() + spec_init_tail(
                old(self).is_initialized(),
                old(self).spec_kind(),
            ) + seq![
                spec_touchpoint_color_report(
                    (point + old(self).spec_kind().spec_key_count()) as u8,
                    red,
                    green,
                    blue,
                ),
            ],
            r is Err ==> final(self).log().is_prefix_of(old(self).log() + spec_init_tail(
                old(self).is_initialized(),
                old(self).spec_kind(),
            ) + seq![
                spec_touchpoint_color_report(
                    (point + old(self).spec_kind().spec_key_count()) as u8,
                    red,
                    green,
                    blue,
                ),
            ]),
    {
        let ghost pre = *old(self);
        if let Err(e) = self.initialize() {
            proof {
                assert(pre.log() + spec_init_reports(pre.spec_kind()) =~= pre.log()
                    + spec_init_tail(pre.is_initialized(), pre.spec_kind()));
                lemma_err_prefix_chain(
                    self.log(),
                    pre.log() + spec_init_tail(pre.is_initialized(), pre.spec_kind()),
                    seq![
                        spec_touchpoint_color_report(
                            (point + pre.spec_kind().spec_key_count()) as u8,
                            red,
                            green,
                            blue,
                        ),
                    ],
                );
            }
            return Err(e);
        }
        if point >= self.kind.touchpoint_count() {
            proof {
                lemma_log_prefix(pre.log(), self.log().skip(pre.log().len() as int));
                assert(pre.log() + self.log().skip(pre.log().len() as int) =~= self.log());
                if !pre.spec_kind().spec_is_mirabox() {
                    assert(self.log() =~= pre.log());
                }
                lemma_err_prefix_chain(
                    self.log(),
                    pre.log() + spec_init_tail(pre.is_initialized(), pre.spec_kind()),
                    seq![
                        spec_touchpoint_color_report(
                            (point + pre.spec_kind().spec_key_count()) as u8,
                            red,
                            green,
                            blue,
                        ),
                    ],
                );
            }
            return Err(StreamDeckError::InvalidTouchPointIndex);
        }
        let buf = touchpoint_color_report(point + self.kind.key_count(), red, green, blue);
        let sent = self.send_feature(&buf);
        proof {
            lemma_log_prefix(pre.log(), self.log().skip(pre.log().len() as int));
            assert(pre.log() + self.log().skip(pre.log().len() as int) =~= self.log());
            if sent is Ok {
                assert(self.log() =~= pre.log() + spec_init_tail(
                    pre.is_initialized(),
                    pre.spec_kind(),
                ) + seq![
                    spec_touchpoint_color_report(
                        (point + pre.spec_kind().spec_key_count()) as u8,
                        red,
                        green,
                        blue,
                    ),
                ]);
            }
        }
        sent
    }

    /// Sleeps the device; only MiraBox families support it.
    pub fn sleep(&mut self) -> (r: Result<(), StreamDeckError>)
        ensures
            final(self).spec_kind() == old(self).spec_kind(),
            final(self).queries() == old(self).queries(),
            final(self).cache() == old(self).cache(),
            old(self).log().is_prefix_of(final(self).log()),
            !old(self).spec_kind().spec_is_mirabox() ==> r == Err::<(), StreamDeckError>(
                StreamDeckError::UnsupportedOperation,
            ) && final(self).log() == old(self).log(),
            r is Ok ==> old(self).spec_kind().spec_is_mirabox() && final(self).log() == old(
                self,
            ).log() + spec_init_tail(old(self).is_initialized(), old(self).spec_kind()) + seq![
                spec_han_packet(old(self).spec_kind()),
            ],
            r is Err ==> final(self).log().is_prefix_of(old(self).log() + spec_init_tail(
                old(self).is_initialized(),
                old(self).spec_kind(),
            ) + seq![spec_han_packet(old(self).spec_kind())]),
    {
        let ghost pre = *old(self);
        if let Err(e) = self.initialize() {
            proof {
                assert(pre.log() + spec_init_reports(pre.spec_kind()) =~= pre.log()
                    + spec_init_tail(pre.is_initialized(), pre.spec_kind()));
                lemma_err_prefix_chain(
                    self.log(),
                    pre.log() + spec_init_tail(pre.is_initialized(), pre.spec_kind()),
                    seq![spec_han_packet(pre.spec_kind())],
                );
            }
            return Err(e);
        }
        if !self.kind.is_mirabox() {
            proof {
                assert(pre.log() + spec_init_tail(pre.is_initialized(), pre.spec_kind())
                    =~= pre.log());
                lemma_prefix_self(self.log());
                lemma_err_prefix_chain(
                    self.log(),
                    pre.log() + spec_init_tail(pre.is_initialized(), pre.spec_kind()),
                    seq![spec_han_packet(pre.spec_kind())],
                );
            }
            return Err(StreamDeckError::UnsupportedOperation);
        }
        let buf = mirabox_command_packet(self.kind, MiraBoxCommand::Sleep);
        let sent = self.write_report(&buf);
        proof {
            lemma_log_prefix(pre.log(), self.log().skip(pre.log().len() as int));
            assert(pre.log() + self.log().skip(pre.log().len() as int) =~= self.log());
            if sent is Ok {
                assert(self.log() =~= pre.log() + spec_init_tail(
                    pre.is_initialized(),
                    pre.spec_kind(),
                ) + seq![spec_han_packet(pre.spec_kind())]);
            } else {
                assert(self.log() =~= pre.log() + spec_init_tail(
                    pre.is_initialized(),
                    pre.spec_kind(),
                ));
                lemma_err_prefix_chain(
                    self.log(),
                    pre.log() + spec_init_tail(pre.is_initialized(), pre.spec_kind()),
                    seq![spec_han_packet(pre.spec_kind())],
                );
            }
        }
        sent
    }

    /// Sends a periodic keep-alive to the device; only MiraBox families
    /// support it.
    pub fn keep_alive(&mut self) -> (r: Result<(), StreamDeckError>)
        ensures
            final(self).spec_kind() == old(self).spec_kind(),
            final(self).queries() == old(self).queries(),
            final(self).cache() == old(self).cache(),
            old(self).log().is_prefix_of(final(self).log()),
            !old(self).spec_kind().spec_is_mirabox() ==> r == Err::<(), StreamDeckError>(
                StreamDeckError::UnsupportedOperation,
            ) && final(self).log() == old(self).log(),
            r is Ok ==> old(self).spec_kind().spec_is_mirabox() && final(self).log() == old(
                self,
            ).log() + spec_init_tail(old(self).is_initialized(), old(self).spec_kind()) + seq![
                spec_connect_packet(old(self).spec_kind()),
            ],
            r is Err ==> final(self).log().is_prefix_of(old(self).log() + spec_init_tail(
                old(self).is_initialized(),
                old(self).spec_kind(),
            ) + seq![spec_connect_packet(old(self).spec_kind())]),
    {
        let ghost pre = *old(self);
        if let Err(e) = self.initialize() {
            proof {
                assert(pre.log() + spec_init_reports(pre.spec_kind()) =~= pre.log()
                    + spec_init_tail(pre.is_initialized(), pre.spec_kind()));
                lemma_err_prefix_chain(
                    self.log(),
                    pre.log() + spec_init_tail(pre.is_initialized(), pre.spec_kind()),
                    seq![spec_connect_packet(pre.spec_kind())],
                );
            }
            return Err(e);
        }
        if !self.kind.is_mirabox() {
            proof {
                assert(pre.log() + spec_init_tail(pre.is_initialized(), pre.spec_kind())
                    =~= pre.log());
                lemma_prefix_self(self.log());
                lemma_err_prefix_chain(
                    self.log(),
                    pre.log() + spec_init_tail(pre.is_initialized(), pre.spec_kind()),
                    seq![spec_connect_packet(pre.spec_kind())],
                );
            }
            return Err(StreamDeckError::UnsupportedOperation);
        }
        let buf = mirabox_command_packet(self.kind, MiraBoxCommand::KeepAlive);
        let sent = self.write_report(&buf);
        proof {
            lemma_log_prefix(pre.log(), self.log().skip(pre.log().len() as int));
            assert(pre.log() + self.log().skip(pre.log().len() as int) =~= self.log());
            if sent is Ok {
                assert(self.log() =~= pre.log() + spec_init_tail(
                    pre.is_initialized(),
                    pre.spec_kind(),
                ) + seq![spec_connect_packet(pre.spec_kind())]);
            }
        }
        sent
    }

    /// Shuts the device down: clears the screen and sleeps; only MiraBox
    /// families support it.
    pub fn shutdown(&mut self) -> (r: Result<(), StreamDeckError>)
        ensures
            final(self).spec_kind() == old(self).spec_kind(),
            final(self).queries() == old(self).queries(),
            final(self).cache() == old(self).cache(),
            old(self).log().is_prefix_of(final(self).log()),
            !old(self).spec_kind().spec_is_mirabox() ==> r == Err::<(), StreamDeckError>(
                StreamDeckError::UnsupportedOperation,
            ) && final(self).log() == old(self).log(),
            r is Ok ==> old(self).spec_kind().spec_is_mirabox() && final(self).log() == old(
                self,
            ).log() + spec_init_tail(old(self).is_initialized(), old(self).spec_kind()) + seq![
                spec_shutdown_cle_packet(old(self).spec_kind()),
                spec_han_packet(old(self).spec_kind()),
            ],
            r is Err ==> final(self).log().is_prefix_of(old(self).log() + spec_init_tail(
                old(self).is_initialized(),
                old(self).spec_kind(),
            ) + seq![spec_shutdown_cle_packet(old(self).spec_kind()), spec_han_packet(old(self).spec_kind())]),
    {
        let ghost pre = *old(self);
        if let Err(e) = self.initialize() {
            proof {
                assert(pre.log() + spec_init_reports(pre.spec_kind()) =~= pre.log()
                    + spec_init_tail(pre.is_initialized(), pre.spec_kind()));
                lemma_err_prefix_chain(
                    self.log(),
                    pre.log() + spec_init_tail(pre.is_initialized(), pre.spec_kind()),
                    seq![spec_shutdown_cle_packet(pre.spec_kind()), spec_han_packet(pre.spec_kind())],
                );
            }
            return Err(e);
        }
        if !self.kind.is_mirabox() {
            proof {
                assert(pre.log() + spec_init_tail(pre.is_initialized(), pre.spec_kind())
                    =~= pre.log());
                lemma_prefix_self(self.log());
                lemma_err_prefix_chain(
                    self.log(),
                    pre.log() + spec_init_tail(pre.is_initialized(), pre.spec_kind()),
                    seq![spec_shutdown_cle_packet(pre.spec_kind()), spec_han_packet(pre.spec_kind())],
                );
            }
            return Err(StreamDeckError::UnsupportedOperation);
        }
        let cle = mirabox_command_packet(self.kind, MiraBoxCommand::ShutdownClear);
        let sent_cle = self.write_report(&cle);
        proof {
            lemma_log_prefix(pre.log(), self.log().skip(pre.log().len() as int));
            assert(pre.log() + self.log().skip(pre.log().len() as int) =~= self.log());
        }
        if sent_cle.is_err() {
            return Err(StreamDeckError::HidError);
        }
        let han = mirabox_command_packet(self.kind, MiraBoxCommand::Sleep);
        let sent = self.write_report(&han);
        proof {
            lemma_log_prefix(pre.log(), self.log().skip(pre.log().len() as int));
            assert(pre.log() + self.log().skip(pre.log().len() as int) =~= self.log());
            if sent is Ok {
                assert(self.log() =~= pre.log() + spec_init_tail(
                    pre.is_initialized(),
                    pre.spec_kind(),
                ) + seq![
                    spec_shutdown_cle_packet(pre.spec_kind()),
                    spec_han_packet(pre.spec_kind()),
                ]);
            }
        }
        sent
    }

    /// Writes an image region to the LCD strip; only the Stream Deck Plus
    /// supports region writes. On kinds without a touch surface the
    /// unsupported-operation error comes back and nothing is written.
    pub fn write_lcd(&mut self, x: u16, y: u16, rect: &ImageRect) -> (r: Result<
        (),
        StreamDeckError,
    >)
        ensures
            final(self).spec_kind() == old(self).spec_kind(),
            final(self).queries() == old(self).queries(),
            final(self).cache() == old(self).cache(),
            old(self).log().is_prefix_of(final(self).log()),
            old(self).spec_kind() != Kind::Plus ==> r is Err,
            old(self).spec_kind() != Kind::Plus && (!old(self).spec_kind().spec_is_mirabox()
                || old(self).is_initialized()) ==> r == Err::<(), StreamDeckError>(
                StreamDeckError::UnsupportedOperation,
            ) && final(self).log() == old(self).log(),
            r is Ok ==> old(self).spec_kind() == Kind::Plus && final(self).log() == old(self).log()
                + spec_command_reports(
                PagedCommand::LcdRegion(x, y, rect.w, rect.h),
                rect.data@,
            ),
            r is Err && old(self).spec_kind() == Kind::Plus ==> final(self).log().is_prefix_of(
                old(self).log() + spec_command_reports(
                    PagedCommand::LcdRegion(x, y, rect.w, rect.h),
                    rect.data@,
                ),
            ),
            r is Err && old(self).spec_kind() != Kind::Plus ==> final(self).log().is_prefix_of(
                old(self).log() + spec_init_tail(old(self).is_initialized(), old(self).spec_kind()),
            ),
            old(self).spec_kind() == Kind::Plus && r is Err ==> r->Err_0
                == StreamDeckError::HidError,
    {
        let ghost pre = *old(self);
        if let Err(e) = self.initialize() {
            proof {
                assert(pre.log() + spec_init_reports(pre.spec_kind()) =~= pre.log()
                    + spec_init_tail(pre.is_initialized(), pre.spec_kind()));
            }
            return Err(e);
        }
        if !matches!(self.kind, Kind::Plus) {
            proof {
                lemma_log_prefix(pre.log(), self.log().skip(pre.log().len() as int));
                assert(pre.log() + self.log().skip(pre.log().len() as int) =~= self.log());
                if !pre.spec_kind().spec_is_mirabox() || pre.is_initialized() {
                    assert(self.log() =~= pre.log());
                }
                lemma_prefix_self(self.log());
                assert(self.log() =~= pre.log() + spec_init_tail(
                    pre.is_initialized(),
                    pre.spec_kind(),
                ));
            }
            return Err(StreamDeckError::UnsupportedOperation);
        }
        let sent = self.write_paged(PagedCommand::LcdRegion(x, y, rect.w, rect.h), &rect.data);
        proof {
            assert(pre.log() + spec_init_tail(pre.is_initialized(), pre.spec_kind())
                =~= pre.log());
        }
        sent
    }

    /// Writes an image to the whole LCD strip; the Stream Deck Neo and Plus
    /// support full fills.
    pub fn write_lcd_fill(&mut self, image_data: &[u8]) -> (r: Result<(), StreamDeckError>)
        ensures
            final(self).spec_kind() == old(self).spec_kind(),
            final(self).queries() == old(self).queries(),
            final(self).cache() == old(self).cache(),
            old(self).log().is_prefix_of(final(self).log()),
            !(old(self).spec_kind() == Kind::Neo || old(self).spec_kind() == Kind::Plus) ==> r
                is Err,
            !(old(self).spec_kind() == Kind::Neo || old(self).spec_kind() == Kind::Plus) && (!old(
                self,
            ).spec_kind().spec_is_mirabox() || old(self).is_initialized()) ==> r == Err::<
                (),
                StreamDeckError,
            >(StreamDeckError::UnsupportedOperation) && final(self).log() == old(self).log(),
            r is Ok && old(self).spec_kind() == Kind::Neo ==> final(self).log() == old(self).log()
                + spec_command_reports(PagedCommand::LcdFillNeo, image_data@),
            r is Ok && old(self).spec_kind() == Kind::Plus ==> final(self).log() == old(self).log()
                + spec_command_reports(PagedCommand::LcdRegion(0, 0, 800, 100), image_data@),
            r is Ok ==> old(self).spec_kind() == Kind::Neo || old(self).spec_kind() == Kind::Plus,
            r is Err && old(self).spec_kind() == Kind::Neo ==> final(self).log().is_prefix_of(
                old(self).log() + spec_command_reports(PagedCommand::LcdFillNeo, image_data@),
            ),
            r is Err && old(self).spec_kind() == Kind::Plus ==> final(self).log().is_prefix_of(
                old(self).log() + spec_command_reports(
                    PagedCommand::LcdRegion(0, 0, 800, 100),
                    image_data@,
                ),
            ),
            r is Err && !(old(self).spec_kind() == Kind::Neo || old(self).spec_kind()
                == Kind::Plus) ==> final(self).log().is_prefix_of(old(self).log()
                + spec_init_tail(old(self).is_initialized(), old(self).spec_kind())),
            (old(self).spec_kind() == Kind::Neo || old(self).spec_kind() == Kind::Plus) && r
                is Err ==> r->Err_0 == StreamDeckError::HidError,
    {
        let ghost pre = *old(self);
        if let Err(e) = self.initialize() {
            proof {
                assert(pre.log() + spec_init_reports(pre.spec_kind()) =~= pre.log()
                    + spec_init_tail(pre.is_initialized(), pre.spec_kind()));
            }
            return Err(e);
        }
        if matches!(self.kind, Kind::Neo) {
            let data = crate::util::tail_from(image_data, 0);
            proof {
                assert(data@ =~= image_data@);
                assert(pre.log() + spec_init_tail(pre.is_initialized(), pre.spec_kind())
                    =~= pre.log());
            }
            self.write_paged(PagedCommand::LcdFillNeo, &data)
        } else if matches!(self.kind, Kind::Plus) {
            let (w, h) = match self.kind.lcd_strip_size() {
                Some(size) => size,
                None => (0, 0),
            };
            let data = crate::util::tail_from(image_data, 0);
            proof {
                assert(data@ =~= image_data@);
                assert(pre.log() + spec_init_tail(pre.is_initialized(), pre.spec_kind())
                    =~= pre.log());
            }
            self.write_paged(PagedCommand::LcdRegion(0, 0, w as u16, h as u16), &data)
        } else {
            proof {
                lemma_log_prefix(pre.log(), self.log().skip(pre.log().len() as int));
                assert(pre.log() + self.log().skip(pre.log().len() as int) =~= self.log());
                if !pre.spec_kind().spec_is_mirabox() || pre.is_initialized() {
                    assert(self.log() =~= pre.log());
                }
                lemma_prefix_self(self.log());
                assert(self.log() =~= pre.log() + spec_init_tail(
                    pre.is_initialized(),
                    pre.spec_kind(),
                ));
            }
            Err(StreamDeckError::UnsupportedOperation)
        }
    }

    /// Builds the pages of a paged command and writes them in order.
    fn write_paged(&mut self, cmd: PagedCommand, data: &Vec<u8>) -> (r: Result<
        (),
        StreamDeckError,
    >)
        ensures
            final(self).kind == old(self).kind,
            final(self).device == old(self).device,
            final(self).image_cache == old(self).image_cache,
            final(self).initialized == old(self).initialized,
            final(self).asked == old(self).asked,
            old(self).log().is_prefix_of(final(self).log()),
            r is Err ==> final(self).log().is_prefix_of(old(self).log() + spec_command_reports(
                cmd,
                data@,
            )),
            r is Err ==> r->Err_0 == StreamDeckError::HidError || (r->Err_0
                == StreamDeckError::ImageError && !spec_command_fits(cmd, data@.len())),
            r is Ok ==> final(self).log() == old(self).log() + spec_command_reports(cmd, data@),
    {
        let ghost pre = *old(self);
        let pages = match command_pages(cmd, data.as_slice()) {
            Ok(p) => p,
            Err(e) => {
                proof {
                    lemma_log_prefix(self.log(), spec_command_reports(cmd, data@));
                }
                return Err(e);
            },
        };
        let ghost reports = spec_command_reports(cmd, data@);
        proof {
            assert(self.log() =~= pre.log() + reports.take(0));
        }
        let mut i: usize = 0;
        while i < pages.len()
            invariant
                pre == *old(self),
                i <= pages@.len(),
                self.kind == pre.kind,
                self.device == pre.device,
                self.image_cache == pre.image_cache,
                self.initialized == pre.initialized,
                self.asked == pre.asked,
                pages@.len() == reports.len(),
                forall|j: int| 0 <= j < pages@.len() ==> (#[trigger] pages@[j])@ == reports[j],
                reports == spec_command_reports(cmd, data@),
                self.log() == pre.log() + reports.take(i as int),
            decreases pages@.len() - i,
        {
            let sent = self.write_report(&pages[i]);
            proof {
                lemma_log_prefix(pre.log(), self.log().skip(pre.log().len() as int));
                assert(pre.log() + self.log().skip(pre.log().len() as int) =~= self.log());
                if sent is Err {
                    lemma_take_prefix(reports, i as int);
                    lemma_prefix_concat_left(pre.log(), reports.take(i as int), reports);
                }
            }
            if sent.is_err() {
                return Err(StreamDeckError::HidError);
            }
            proof {
                assert(reports.take(i + 1) =~= reports.take(i as int).push(reports[i as int]));
                assert(self.log() =~= pre.log() + reports.take(i + 1));
            }
            i += 1;
        }
        proof {
            assert(reports.take(reports.len() as int) =~= reports);
            assert(self.log() =~= pre.log() + reports);
            lemma_log_prefix(pre.log(), self.log().skip(pre.log().len() as int));
            assert(pre.log() + self.log().skip(pre.log().len() as int) =~= self.log());
        }
        Ok(())
    }
}

/// Whether a kind belongs to the AKP03 family, whose last three keys have no
/// displays.
pub open spec fn spec_is_akp03_family(kind: Kind) -> bool {
    kind == Kind::Akp03 || kind == Kind::Akp03E || kind == Kind::Akp03R
}

/// The reports of one reset.
pub open spec fn spec_reset_reports(kind: Kind) -> Seq<Seq<u8>> {
    if kind.spec_is_mirabox() {
        seq![spec_brightness_report(kind, 100)] + spec_clear_all_reports(kind)
    } else {
        seq![spec_reset_report(kind)]
    }
}

/// The image transfers of the first `k` cache entries, in insertion order.
pub open spec fn spec_flush_images_upto(kind: Kind, cache: Seq<(u8, Seq<u8>)>, k: nat) -> Seq<
    Seq<u8>,
>
    decreases k,
{
    if k == 0 {
        Seq::empty()
    } else {
        spec_flush_images_upto(kind, cache, (k - 1) as nat) + spec_send_image_reports(
            kind,
            cache[k - 1].0,
            cache[k - 1].1,
        )
    }
}

/// One more cache entry extends the flushed transfers by that entry's reports.
proof fn lemma_flush_images_upto_step(kind: Kind, cache: Seq<(u8, Seq<u8>)>, k: nat)
    requires
        k < cache.len(),
    ensures
        spec_flush_images_upto(kind, cache, k + 1) == spec_flush_images_upto(kind, cache, k)
            + spec_send_image_reports(kind, cache[k as int].0, cache[k as int].1),
{
}

/// Flushing every entry matches the flush specification.
proof fn lemma_flush_images_upto_full(kind: Kind, cache: Seq<(u8, Seq<u8>)>)
    ensures
        spec_flush_images_upto(kind, cache, cache.len()) == spec_flush_images(kind, cache),
    decreases cache.len(),
{
    if cache.len() > 0 {
        lemma_flush_images_upto_full(kind, cache.drop_last());
        assert(spec_flush_images_upto(kind, cache.drop_last(), cache.drop_last().len())
            =~= spec_flush_images_upto(kind, cache, (cache.len() - 1) as nat)) by {
            lemma_flush_images_upto_congruence(kind, cache.drop_last(), cache, (cache.len() - 1) as nat);
        }
    }
}

/// The first `k` flushed transfers depend only on the first `k` entries.
proof fn lemma_flush_images_upto_congruence(
    kind: Kind,
    a: Seq<(u8, Seq<u8>)>,
    b: Seq<(u8, Seq<u8>)>,
    k: nat,
)
    requires
        k <= a.len(),
        k <= b.len(),
        forall|i: int| 0 <= i < k ==> a[i] == b[i],
    ensures
        spec_flush_images_upto(kind, a, k) == spec_flush_images_upto(kind, b, k),
    decreases k,
{
    if k > 0 {
        lemma_flush_images_upto_congruence(kind, a, b, (k - 1) as nat);
    }
}

/// A log is a prefix of itself with more reports appended.
proof fn lemma_log_prefix(a: Seq<Seq<u8>>, b: Seq<Seq<u8>>)
    ensures
        a.is_prefix_of(a + b),
{
    assert((a + b).subrange(0, a.len() as int) =~= a);
}

/// A log whose first entries agree with a shorter log has it as a prefix.
proof fn lemma_prefix_extends(a: Seq<Seq<u8>>, c: Seq<Seq<u8>>)
    requires
        c.len() >= a.len(),
        forall|j: int| 0 <= j < a.len() ==> c[j] == a[j],
    ensures
        a.is_prefix_of(c),
{
    assert(a =~= c.subrange(0, a.len() as int));
}

/// Being a prefix of a log is carried through every later extension.
proof fn lemma_prefix_via(a: Seq<Seq<u8>>, b: Seq<Seq<u8>>, c: Seq<Seq<u8>>)
    requires
        a.is_prefix_of(b),
        b.is_prefix_of(c),
    ensures
        a.is_prefix_of(c),
{
    assert(a =~= c.subrange(0, a.len() as int));
}

/// A log that stops inside one intended base is a prefix of the base plus
/// any further intended tail.
proof fn lemma_err_prefix_chain(cur: Seq<Seq<u8>>, base: Seq<Seq<u8>>, tail: Seq<Seq<u8>>)
    requires
        cur.is_prefix_of(base),
    ensures
        cur.is_prefix_of(base + tail),
{
    lemma_log_prefix(base, tail);
    lemma_prefix_via(cur, base, base + tail);
}

/// Every log is a prefix of itself.
proof fn lemma_prefix_self(a: Seq<Seq<u8>>)
    ensures
        a.is_prefix_of(a),
{
    assert(a =~= a.subrange(0, a.len() as int));
}

/// The first reports of a sequence are a prefix of it.
proof fn lemma_take_prefix(s: Seq<Seq<u8>>, k: int)
    requires
        0 <= k <= s.len(),
    ensures
        s.take(k).is_prefix_of(s),
{
    assert(s.take(k) =~= s.subrange(0, k));
}

/// Appending a prefix of a tail keeps the whole a prefix of the whole tail.
proof fn lemma_prefix_concat_left(a: Seq<Seq<u8>>, b: Seq<Seq<u8>>, c: Seq<Seq<u8>>)
    requires
        b.is_prefix_of(c),
    ensures
        (a + b).is_prefix_of(a + c),
{
    assert((a + b) =~= (a + c).subrange(0, (a + b).len() as int));
}

/// The reports that clear the first `k` keys are a prefix of those that
/// clear the first `m`.
proof fn lemma_clear_keys_prefix(kind: Kind, k: nat, m: nat)
    requires
        k <= m,
    ensures
        spec_clear_keys_reports(kind, k).is_prefix_of(spec_clear_keys_reports(kind, m)),
    decreases m - k,
{
    if k < m {
        lemma_clear_keys_prefix(kind, k + 1, m);
        lemma_log_prefix(
            spec_clear_keys_reports(kind, k),
            spec_clear_button_reports(kind, k as u8),
        );
        lemma_prefix_via(
            spec_clear_keys_reports(kind, k),
            spec_clear_keys_reports(kind, k + 1),
            spec_clear_keys_reports(kind, m),
        );
    } else {
        lemma_prefix_self(spec_clear_keys_reports(kind, k));
    }
}

/// The transfers of the first `k` cache entries are a prefix of the transfers
/// of all of them.
proof fn lemma_flush_upto_prefix(kind: Kind, cache: Seq<(u8, Seq<u8>)>, k: nat)
    requires
        k <= cache.len(),
    ensures
        spec_flush_images_upto(kind, cache, k).is_prefix_of(
            spec_flush_images_upto(kind, cache, cache.len()),
        ),
    decreases cache.len() - k,
{
    if k < cache.len() {
        lemma_flush_upto_prefix(kind, cache, k + 1);
        lemma_log_prefix(
            spec_flush_images_upto(kind, cache, k),
            spec_send_image_reports(kind, cache[k as int].0, cache[k as int].1),
        );
        lemma_prefix_via(
            spec_flush_images_upto(kind, cache, k),
            spec_flush_images_upto(kind, cache, k + 1),
            spec_flush_images_upto(kind, cache, cache.len()),
        );
    } else {
        lemma_prefix_self(spec_flush_images_upto(kind, cache, k));
    }
}

} // verus!
