//! The report codec: outgoing HID report framing.
//!
//! Every outgoing report is a fixed-length buffer: a command-specific header,
//! then payload, then zero padding. Large payloads (key images, LCD regions,
//! logos) are paged: split into chunks of `report length - header length`
//! bytes, each page carrying its index and a "last page" flag.

use vstd::arithmetic::div_mod::{lemma_fundamental_div_mod, lemma_fundamental_div_mod_converse};
use vstd::arithmetic::mul::lemma_mul_inequality;
use vstd::prelude::*;

use crate::info::Kind;
use crate::util::{mirabox_extend_packet, spec_mirabox_packet_length, zeros};
use crate::StreamDeckError;

verus! {

/// The low byte of an integer.
pub open spec fn lo8(x: int) -> u8 {
    (x % 256) as u8
}

/// The second-lowest byte of an integer.
pub open spec fn hi8(x: int) -> u8 {
    ((x / 256) % 256) as u8
}

/// A flag byte: one for true, zero for false.
pub open spec fn bool_byte(b: bool) -> u8 {
    if b {
        1u8
    } else {
        0u8
    }
}

/// The number of pages an `n`-byte payload needs with page size `p`: the
/// ceiling of `n / p`, and zero pages for an empty payload.
pub open spec fn spec_page_count(n: nat, p: nat) -> nat
    recommends
        p > 0,
{
    ((n + p - 1) / (p as int)) as nat
}

/// The payload chunk carried by page `i`: bytes `i * p` up to the next page
/// boundary or the end of the payload, whichever comes first.
pub open spec fn spec_page_chunk(data: Seq<u8>, p: nat, i: nat) -> Seq<u8>
    recommends
        p > 0,
        i < spec_page_count(data.len(), p),
{
    data.subrange(
        (i * p) as int,
        if (i + 1) * p <= data.len() {
            ((i + 1) * p) as int
        } else {
            data.len() as int
        },
    )
}

/// Whether page `i` consumes the remaining bytes of an `n`-byte payload: this
/// is exactly the condition under which its "last page" flag is set.
pub open spec fn spec_page_is_last(n: nat, p: nat, i: nat) -> bool {
    (i + 1) * p >= n
}

/// The first `k` chunks of a paged payload, concatenated in page order.
pub open spec fn spec_concat_chunks(data: Seq<u8>, p: nat, k: nat) -> Seq<u8>
    decreases k,
{
    if k == 0 {
        Seq::empty()
    } else {
        spec_concat_chunks(data, p, (k - 1) as nat) + spec_page_chunk(data, p, (k - 1) as nat)
    }
}

/// Bounds of the page count: all pages but the last start strictly inside the
/// payload, and the last page reaches its end.
pub proof fn lemma_page_count_bounds(n: nat, p: nat)
    requires
        p > 0,
    ensures
        spec_page_count(n, p) * p >= n,
        spec_page_count(n, p) * p < n + p,
        n == 0 ==> spec_page_count(n, p) == 0,
        n > 0 ==> spec_page_count(n, p) >= 1,
{
    let q = (n + p - 1) / (p as int);
    lemma_fundamental_div_mod(n + p - 1, p as int);
    let r = (n + p - 1) % (p as int);
    assert(n + p - 1 == p * q + r);
    assert(q * p == n + p - 1 - r) by (nonlinear_arith)
        requires
            n + p - 1 == p * q + r,
    ;
    if n == 0 {
        assert(q == 0) by (nonlinear_arith)
            requires
                q * p == p - 1 - r,
                0 <= r < p,
                p > 0,
        ;
    }
    if n > 0 {
        assert(q >= 1) by (nonlinear_arith)
            requires
                q * p >= n,
                n > 0,
                p > 0,
        ;
    }
}

/// A page before the last starts strictly inside the payload and is full; the
/// last page ends exactly at the payload's end.
pub proof fn lemma_page_position(n: nat, p: nat, i: nat)
    requires
        p > 0,
        i < spec_page_count(n, p),
    ensures
        i * p < n,
        spec_page_is_last(n, p, i) <==> i + 1 == spec_page_count(n, p),
        i + 1 < spec_page_count(n, p) ==> (i + 1) * p < n,
{
    let count = spec_page_count(n, p);
    lemma_page_count_bounds(n, p);
    assert(i * p <= (count - 1) * p) by {
        lemma_mul_inequality(i as int, count as int - 1, p as int);
    }
    assert((count - 1) * p == count * p - p) by (nonlinear_arith);
    assert(i * p < n);
    if i + 1 == count {
        assert((i + 1) * p >= n);
    } else {
        assert(i + 1 < count);
        assert((i + 1) * p <= (count - 1) * p) by {
            lemma_mul_inequality(i as int + 1, count - 1, p as int);
        }
        assert((i + 1) * p < n);
    }
}

/// The first `k` chunks concatenate to the payload's first `min(n, k * p)`
/// bytes.
proof fn lemma_concat_chunks_prefix(data: Seq<u8>, p: nat, k: nat)
    requires
        p > 0,
        k <= spec_page_count(data.len(), p),
    ensures
        k * p <= data.len() ==> spec_concat_chunks(data, p, k) == data.subrange(
            0,
            (k * p) as int,
        ),
        k * p > data.len() ==> spec_concat_chunks(data, p, k) == data.subrange(
            0,
            data.len() as int,
        ),
    decreases k,
{
    let n = data.len();
    if k == 0 {
        assert(k * p == 0) by (nonlinear_arith)
            requires
                k == 0,
        ;
        assert(spec_concat_chunks(data, p, 0) =~= data.subrange(0, 0));
    } else {
        let k1 = (k - 1) as nat;
        lemma_concat_chunks_prefix(data, p, k1);
        lemma_page_position(n, p, k1);
        assert(k1 * p < n);
        assert((k1 + 1) * p == k1 * p + p) by (nonlinear_arith);
        assert(k * p == k1 * p + p) by (nonlinear_arith)
            requires
                k == k1 + 1,
        ;
        let hi: int = if k * p <= n {
            (k * p) as int
        } else {
            n as int
        };
        let lo = (k1 * p) as int;
        assert(spec_page_chunk(data, p, k1) == data.subrange(lo, hi));
        assert(data.subrange(0, lo) + data.subrange(lo, hi) =~= data.subrange(0, hi));
        assert(spec_concat_chunks(data, p, k) =~= data.subrange(0, hi));
    }
}

/// Paging round trip: with page size `p`, an `n`-byte payload yields
/// `ceil(n / p)` pages; exactly the final page carries the "last page" flag;
/// and the chunks of all pages, concatenated in order, reproduce the payload.
pub proof fn lemma_paging_roundtrip(data: Seq<u8>, p: nat)
    requires
        p > 0,
    ensures
        data.len() > 0 ==> spec_page_count(data.len(), p) == ((data.len() + p - 1) / (p as int)),
        data.len() == 0 ==> spec_page_count(data.len(), p) == 0,
        forall|i: nat|
            i < spec_page_count(data.len(), p) ==> ((#[trigger] spec_page_is_last(
                data.len(),
                p,
                i,
            )) <==> i + 1 == spec_page_count(data.len(), p)),
        spec_concat_chunks(data, p, spec_page_count(data.len(), p)) == data,
{
    let n = data.len();
    lemma_page_count_bounds(n, p);
    assert forall|i: nat| i < spec_page_count(n, p) implies ((#[trigger] spec_page_is_last(
        n,
        p,
        i,
    )) <==> i + 1 == spec_page_count(n, p)) by {
        lemma_page_position(n, p, i);
    }
    let count = spec_page_count(n, p);
    lemma_concat_chunks_prefix(data, p, count);
    assert(count * p >= n);
    assert(spec_concat_chunks(data, p, count) =~= data);
}

/// A page index whose page starts inside the payload is a valid page index.
proof fn lemma_page_index(n: nat, p: nat, i: nat)
    requires
        p > 0,
        i * p < n,
    ensures
        i < spec_page_count(n, p),
{
    lemma_page_count_bounds(n, p);
    let count = spec_page_count(n, p);
    if i >= count {
        assert(count * p <= i * p) by {
            lemma_mul_inequality(count as int, i as int, p as int);
        }
    }
}

/// When page `k` starts at `k * p` and exactly `rem` bytes remain with
/// `0 < rem <= p`, it is the last page: the page count is `k + 1`.
proof fn lemma_page_count_last(n: nat, p: nat, k: nat, rem: nat)
    requires
        p > 0,
        0 < rem <= p,
        n == k * p + rem,
    ensures
        spec_page_count(n, p) == k + 1,
{
    assert((n + p - 1) as int == (k as int + 1) * (p as int) + (rem as int - 1)) by (nonlinear_arith)
        requires
            n == k * p + rem,
            p > 0,
            rem > 0,
    ;
    lemma_fundamental_div_mod_converse((n + p - 1) as int, p as int, k as int + 1, rem as int - 1);
}

/// Appends the bytes `src[start..end]` to a buffer.
fn push_range(dst: &mut Vec<u8>, src: &[u8], start: usize, end: usize)
    requires
        start <= end <= src@.len(),
    ensures
        final(dst)@ == old(dst)@ + src@.subrange(start as int, end as int),
{
    let mut i: usize = start;
    while i < end
        invariant
            start <= i <= end <= src@.len(),
            dst@ == old(dst)@ + src@.subrange(start as int, i as int),
        decreases end - i,
    {
        proof {
            assert(src@.subrange(start as int, i + 1) =~= src@.subrange(start as int, i as int)
                .push(src@[i as int]));
        }
        dst.push(src[i]);
        i += 1;
    }
}

/// Appends zero bytes to a buffer until it reaches the given length.
fn pad_to(buf: &mut Vec<u8>, len: usize)
    requires
        old(buf)@.len() <= len,
    ensures
        final(buf)@ == old(buf)@ + zeros((len - old(buf)@.len()) as nat),
{
    while buf.len() < len
        invariant
            old(buf)@.len() <= buf@.len() <= len,
            buf@ == old(buf)@ + zeros((buf@.len() - old(buf)@.len()) as nat),
        decreases len - buf@.len(),
    {
        buf.push(0u8);
        assert(buf@ =~= old(buf)@ + zeros((buf@.len() - old(buf)@.len()) as nat));
    }
    assert(buf@ =~= old(buf)@ + zeros((len - old(buf)@.len()) as nat));
}

/// A vendor-envelope packet: the command body zero-padded to the fixed packet
/// length of the family's protocol generation.
pub open spec fn spec_mirabox_packet(kind: Kind, body: Seq<u8>) -> Seq<u8>
    recommends
        kind.spec_is_mirabox(),
        body.len() <= spec_mirabox_packet_length(kind),
{
    body + zeros((spec_mirabox_packet_length(kind) - body.len()) as nat)
}

/// The vendor-envelope packet that starts the display at initialization.
pub open spec fn spec_init_dis_packet(kind: Kind) -> Seq<u8> {
    spec_mirabox_packet(kind, seq![0x00u8, 0x43, 0x52, 0x54, 0x00, 0x00, 0x44, 0x49, 0x53])
}

/// The vendor-envelope packet that resets the backlight at initialization.
pub open spec fn spec_init_lig_packet(kind: Kind) -> Seq<u8> {
    spec_mirabox_packet(
        kind,
        seq![0x00u8, 0x43, 0x52, 0x54, 0x00, 0x00, 0x4c, 0x49, 0x47, 0x00, 0x00, 0x00, 0x00],
    )
}

/// The vendor-envelope packet that sets the backlight brightness.
pub open spec fn spec_mirabox_brightness_packet(kind: Kind, percent: u8) -> Seq<u8> {
    spec_mirabox_packet(
        kind,
        seq![0x00u8, 0x43, 0x52, 0x54, 0x00, 0x00, 0x4c, 0x49, 0x47, 0x00, 0x00, percent],
    )
}

/// The vendor-envelope packet that announces a key-image transfer of `n`
/// payload bytes for a physical key.
pub open spec fn spec_bat_packet(kind: Kind, key: u8, n: nat) -> Seq<u8> {
    spec_mirabox_packet(
        kind,
        seq![
            0x00u8,
            0x43,
            0x52,
            0x54,
            0x00,
            0x00,
            0x42,
            0x41,
            0x54,
            0x00,
            0x00,
            hi8(n as int),
            lo8(n as int),
            lo8(key as int + 1),
        ],
    )
}

/// The vendor-envelope packet that clears one key's image, or all of them for
/// the sentinel key `0xff`.
pub open spec fn spec_cle_packet(kind: Kind, key: u8) -> Seq<u8> {
    spec_mirabox_packet(
        kind,
        seq![
            0x00u8,
            0x43,
            0x52,
            0x54,
            0x00,
            0x00,
            0x43,
            0x4c,
            0x45,
            0x00,
            0x00,
            0x00,
            if key == 0xff {
                0xffu8
            } else {
                lo8(key as int + 1)
            },
        ],
    )
}

/// The vendor-envelope packet that commits pending image writes.
pub open spec fn spec_stp_packet(kind: Kind) -> Seq<u8> {
    spec_mirabox_packet(kind, seq![0x00u8, 0x43, 0x52, 0x54, 0x00, 0x00, 0x53, 0x54, 0x50])
}

/// The vendor-envelope packet that puts the device to sleep.
pub open spec fn spec_han_packet(kind: Kind) -> Seq<u8> {
    spec_mirabox_packet(kind, seq![0x00u8, 0x43, 0x52, 0x54, 0x00, 0x00, 0x48, 0x41, 0x4e])
}

/// The vendor-envelope keep-alive packet.
pub open spec fn spec_connect_packet(kind: Kind) -> Seq<u8> {
    spec_mirabox_packet(
        kind,
        seq![0x00u8, 0x43, 0x52, 0x54, 0x00, 0x00, 0x43, 0x4f, 0x4e, 0x4e, 0x45, 0x43, 0x54],
    )
}

/// The vendor-envelope packet that clears the screen for shutdown.
pub open spec fn spec_shutdown_cle_packet(kind: Kind) -> Seq<u8> {
    spec_mirabox_packet(
        kind,
        seq![0x00u8, 0x43, 0x52, 0x54, 0x00, 0x00, 0x43, 0x4c, 0x45, 0x00, 0x00, 0x44, 0x43],
    )
}

/// The vendor-envelope packet that announces a full-screen logo upload.
pub open spec fn spec_logo_header_packet(kind: Kind) -> Seq<u8> {
    spec_mirabox_packet(
        kind,
        seq![0x00u8, 0x43, 0x52, 0x54, 0x00, 0x00, 0x4c, 0x4f, 0x47, 0x00, 0x12, 0xc3, 0xc0, 0x01],
    )
}

/// The handshake packets a family needs before its first command: the two
/// vendor-envelope packets for MiraBox families, nothing for the others.
pub open spec fn spec_init_reports(kind: Kind) -> Seq<Seq<u8>> {
    if kind.spec_is_mirabox() {
        seq![spec_init_dis_packet(kind), spec_init_lig_packet(kind)]
    } else {
        Seq::empty()
    }
}

/// The brightness command for a clamped percentage: a compact feature report
/// for Elgato families, a vendor-envelope packet for MiraBox families.
pub open spec fn spec_brightness_report(kind: Kind, percent: u8) -> Seq<u8> {
    if kind == Kind::Original || kind == Kind::Mini || kind == Kind::MiniMk2 {
        seq![0x05u8, 0x55, 0xaa, 0xd1, 0x01, percent] + zeros(11)
    } else if kind.spec_is_mirabox() {
        spec_mirabox_brightness_packet(kind, percent)
    } else {
        seq![0x03u8, 0x08, percent] + zeros(29)
    }
}

/// A brightness percentage clamped to the accepted range.
pub open spec fn spec_clamped(percent: u8) -> u8 {
    if percent > 100 {
        100u8
    } else {
        percent
    }
}

/// Clamps a brightness percentage to the accepted range.
pub fn clamp_percent(percent: u8) -> (r: u8)
    ensures
        r == spec_clamped(percent),
{
    if percent > 100 {
        100
    } else {
        percent
    }
}

/// Brightness clamping: every percentage above one hundred produces exactly
/// the report that one hundred produces, for every family.
pub proof fn lemma_brightness_clamped(kind: Kind, percent: u8)
    requires
        percent >= 100,
    ensures
        spec_brightness_report(kind, spec_clamped(percent)) == spec_brightness_report(kind, 100),
{
}

/// The reset feature report for families that have one.
pub open spec fn spec_reset_report(kind: Kind) -> Seq<u8>
    recommends
        !kind.spec_is_mirabox(),
{
    if kind == Kind::Original || kind == Kind::Mini || kind == Kind::MiniMk2 {
        seq![0x0bu8, 0x63] + zeros(15)
    } else {
        seq![0x03u8, 0x02] + zeros(30)
    }
}

/// The feature report that sets a touch point's color; the index counts on
/// from the key count.
pub open spec fn spec_touchpoint_color_report(point_index: u8, red: u8, green: u8, blue: u8) -> Seq<
    u8,
> {
    seq![0x03u8, 0x06, point_index, red, green, blue]
}

/// Builds a vendor-envelope packet from its body.
fn mirabox_packet_from(kind: &Kind, body: Vec<u8>) -> (r: Vec<u8>)
    requires
        body@.len() <= spec_mirabox_packet_length(*kind),
    ensures
        r@ == spec_mirabox_packet(*kind, body@),
{
    let mut buf = body;
    mirabox_extend_packet(kind, &mut buf);
    buf
}

/// Builds the brightness command for an already clamped percentage.
pub fn brightness_report(kind: Kind, percent: u8) -> (r: Vec<u8>)
    ensures
        r@ == spec_brightness_report(kind, percent),
{
    if matches!(kind, Kind::Original | Kind::Mini | Kind::MiniMk2) {
        let mut buf: Vec<u8> = Vec::new();
        buf.push(0x05);
        buf.push(0x55);
        buf.push(0xaa);
        buf.push(0xd1);
        buf.push(0x01);
        buf.push(percent);
        pad_to(&mut buf, 17);
        assert(buf@ =~= spec_brightness_report(kind, percent));
        buf
    } else if kind.is_mirabox() {
        let mut body: Vec<u8> = Vec::new();
        body.push(0x00);
        body.push(0x43);
        body.push(0x52);
        body.push(0x54);
        body.push(0x00);
        body.push(0x00);
        body.push(0x4c);
        body.push(0x49);
        body.push(0x47);
        body.push(0x00);
        body.push(0x00);
        body.push(percent);
        assert(body@ =~= seq![
            0x00u8,
            0x43,
            0x52,
            0x54,
            0x00,
            0x00,
            0x4c,
            0x49,
            0x47,
            0x00,
            0x00,
            percent,
        ]);
        mirabox_packet_from(&kind, body)
    } else {
        let mut buf: Vec<u8> = Vec::new();
        buf.push(0x03);
        buf.push(0x08);
        buf.push(percent);
        pad_to(&mut buf, 32);
        assert(buf@ =~= spec_brightness_report(kind, percent));
        buf
    }
}

/// Builds the reset feature report for families that have one.
pub fn reset_report(kind: Kind) -> (r: Vec<u8>)
    requires
        !kind.spec_is_mirabox(),
    ensures
        r@ == spec_reset_report(kind),
{
    if matches!(kind, Kind::Original | Kind::Mini | Kind::MiniMk2) {
        let mut buf: Vec<u8> = Vec::new();
        buf.push(0x0b);
        buf.push(0x63);
        pad_to(&mut buf, 17);
        assert(buf@ =~= spec_reset_report(kind));
        buf
    } else {
        let mut buf: Vec<u8> = Vec::new();
        buf.push(0x03);
        buf.push(0x02);
        pad_to(&mut buf, 32);
        assert(buf@ =~= spec_reset_report(kind));
        buf
    }
}

/// One of the vendor-envelope commands that carry no arguments.
#[derive(Copy, Clone, PartialEq, Eq, Structural)]
pub enum MiraBoxCommand {
    /// Start the display (initialization)
    InitDisplay,
    /// Reset the backlight (initialization)
    InitBacklight,
    /// Commit pending image writes
    Commit,
    /// Put the device to sleep
    Sleep,
    /// Keep the connection alive
    KeepAlive,
    /// Clear the screen for shutdown
    ShutdownClear,
    /// Announce a full-screen logo upload
    LogoHeader,
}

/// The vendor-envelope packet a no-argument command sends.
pub open spec fn spec_mirabox_command_packet(kind: Kind, cmd: MiraBoxCommand) -> Seq<u8> {
    match cmd {
        MiraBoxCommand::InitDisplay => spec_init_dis_packet(kind),
        MiraBoxCommand::InitBacklight => spec_init_lig_packet(kind),
        MiraBoxCommand::Commit => spec_stp_packet(kind),
        MiraBoxCommand::Sleep => spec_han_packet(kind),
        MiraBoxCommand::KeepAlive => spec_connect_packet(kind),
        MiraBoxCommand::ShutdownClear => spec_shutdown_cle_packet(kind),
        MiraBoxCommand::LogoHeader => spec_logo_header_packet(kind),
    }
}

/// Builds a no-argument vendor-envelope command packet.
pub fn mirabox_command_packet(kind: Kind, cmd: MiraBoxCommand) -> (r: Vec<u8>)
    ensures
        r@ == spec_mirabox_command_packet(kind, cmd),
{
    let mut body: Vec<u8> = Vec::new();
    body.push(0x00);
    body.push(0x43);
    body.push(0x52);
    body.push(0x54);
    body.push(0x00);
    body.push(0x00);
    match cmd {
        MiraBoxCommand::InitDisplay => {
            body.push(0x44);
            body.push(0x49);
            body.push(0x53);
        },
        MiraBoxCommand::InitBacklight => {
            body.push(0x4c);
            body.push(0x49);
            body.push(0x47);
            body.push(0x00);
            body.push(0x00);
            body.push(0x00);
            body.push(0x00);
        },
        MiraBoxCommand::Commit => {
            body.push(0x53);
            body.push(0x54);
            body.push(0x50);
        },
        MiraBoxCommand::Sleep => {
            body.push(0x48);
            body.push(0x41);
            body.push(0x4e);
        },
        MiraBoxCommand::KeepAlive => {
            body.push(0x43);
            body.push(0x4f);
            body.push(0x4e);
            body.push(0x4e);
            body.push(0x45);
            body.push(0x43);
            body.push(0x54);
        },
        MiraBoxCommand::ShutdownClear => {
            body.push(0x43);
            body.push(0x4c);
            body.push(0x45);
            body.push(0x00);
            body.push(0x00);
            body.push(0x44);
            body.push(0x43);
        },
        MiraBoxCommand::LogoHeader => {
            body.push(0x4c);
            body.push(0x4f);
            body.push(0x47);
            body.push(0x00);
            body.push(0x12);
            body.push(0xc3);
            body.push(0xc0);
            body.push(0x01);
        },
    }
    let r = mirabox_packet_from(&kind, body);
    proof {
        match cmd {
            MiraBoxCommand::InitDisplay => {
                assert(r@ =~= spec_init_dis_packet(kind));
            },
            MiraBoxCommand::InitBacklight => {
                assert(r@ =~= spec_init_lig_packet(kind));
            },
            MiraBoxCommand::Commit => {
                assert(r@ =~= spec_stp_packet(kind));
            },
            MiraBoxCommand::Sleep => {
                assert(r@ =~= spec_han_packet(kind));
            },
            MiraBoxCommand::KeepAlive => {
                assert(r@ =~= spec_connect_packet(kind));
            },
            MiraBoxCommand::ShutdownClear => {
                assert(r@ =~= spec_shutdown_cle_packet(kind));
            },
            MiraBoxCommand::LogoHeader => {
                assert(r@ =~= spec_logo_header_packet(kind));
            },
        }
    }
    r
}

/// Builds the vendor-envelope packet that announces a key-image transfer.
pub fn mirabox_bat_packet(kind: Kind, key: u8, n: usize) -> (r: Vec<u8>)
    ensures
        r@ == spec_bat_packet(kind, key, n as nat),
{
    let mut body: Vec<u8> = Vec::new();
    body.push(0x00);
    body.push(0x43);
    body.push(0x52);
    body.push(0x54);
    body.push(0x00);
    body.push(0x00);
    body.push(0x42);
    body.push(0x41);
    body.push(0x54);
    body.push(0x00);
    body.push(0x00);
    body.push(((n / 256) % 256) as u8);
    body.push((n % 256) as u8);
    body.push(((key as usize + 1) % 256) as u8);
    let r = mirabox_packet_from(&kind, body);
    assert(r@ =~= spec_bat_packet(kind, key, n as nat));
    r
}

/// Builds the vendor-envelope packet that clears one key's image, or all of
/// them for the sentinel key `0xff`.
pub fn mirabox_cle_packet(kind: Kind, key: u8) -> (r: Vec<u8>)
    ensures
        r@ == spec_cle_packet(kind, key),
{
    let mut body: Vec<u8> = Vec::new();
    body.push(0x00);
    body.push(0x43);
    body.push(0x52);
    body.push(0x54);
    body.push(0x00);
    body.push(0x00);
    body.push(0x43);
    body.push(0x4c);
    body.push(0x45);
    body.push(0x00);
    body.push(0x00);
    body.push(0x00);
    if key == 0xff {
        body.push(0xff);
    } else {
        body.push(((key as usize + 1) % 256) as u8);
    }
    let r = mirabox_packet_from(&kind, body);
    assert(r@ =~= spec_cle_packet(kind, key));
    r
}

/// Builds the feature report that sets a touch point's color.
pub fn touchpoint_color_report(point_index: u8, red: u8, green: u8, blue: u8) -> (r: Vec<u8>)
    ensures
        r@ == spec_touchpoint_color_report(point_index, red, green, blue),
{
    let mut buf: Vec<u8> = Vec::new();
    buf.push(0x03);
    buf.push(0x06);
    buf.push(point_index);
    buf.push(red);
    buf.push(green);
    buf.push(blue);
    assert(buf@ =~= spec_touchpoint_color_report(point_index, red, green, blue));
    buf
}

/// The fixed report length of image transfers for a family.
pub open spec fn spec_image_report_length(kind: Kind) -> int {
    if kind == Kind::Original {
        8191
    } else if kind.spec_is_mirabox_v1() {
        513
    } else if kind.spec_is_mirabox_v2() {
        1025
    } else {
        1024
    }
}

/// The header length of key-image reports for a family.
pub open spec fn spec_image_report_header_length(kind: Kind) -> int {
    if kind == Kind::Original || kind == Kind::Mini || kind == Kind::MiniMk2 {
        16
    } else if kind.spec_is_mirabox() {
        1
    } else {
        8
    }
}

/// The payload bytes carried per key-image page. The first-revision Stream
/// Deck sends its image in exactly two halves, encoding the length implicitly;
/// all other families fill the report up to its header.
pub open spec fn spec_key_image_payload_length(kind: Kind, n: nat) -> int {
    if kind == Kind::Original {
        if n / 2 == 0 {
            1
        } else {
            (n / 2) as int
        }
    } else {
        spec_image_report_length(kind) - spec_image_report_header_length(kind)
    }
}

/// Parameters of a paged image transfer
#[derive(Copy, Clone)]
pub struct WriteImageParameters {
    /// Total length of one report, padding included
    pub image_report_length: usize,
    /// Payload bytes carried per report
    pub image_report_payload_length: usize,
}

impl WriteImageParameters {
    /// Parameters of a key-image transfer of `image_data_len` bytes.
    pub fn for_key(kind: Kind, image_data_len: usize) -> (r: Self)
        ensures
            r.image_report_length == spec_image_report_length(kind),
            r.image_report_payload_length == spec_key_image_payload_length(
                kind,
                image_data_len as nat,
            ),
    {
        let image_report_length: usize = if matches!(kind, Kind::Original) {
            8191
        } else if kind.is_mirabox_v1() {
            513
        } else if kind.is_mirabox_v2() {
            1025
        } else {
            1024
        };

        let image_report_header_length: usize = if matches!(
            kind,
            Kind::Original | Kind::Mini | Kind::MiniMk2,
        ) {
            16
        } else if kind.is_mirabox() {
            1
        } else {
            8
        };

        let image_report_payload_length: usize = if matches!(kind, Kind::Original) {
            if image_data_len / 2 == 0 {
                1
            } else {
                image_data_len / 2
            }
        } else {
            image_report_length - image_report_header_length
        };

        Self { image_report_length, image_report_payload_length }
    }
}

/// A paged transfer command: what selects the per-page header, page size and
/// report length.
#[derive(Copy, Clone)]
pub enum PagedCommand {
    /// A key image addressed to a physical key index
    KeyImage(Kind, u8),
    /// A region of the LCD strip, with position and size
    LcdRegion(u16, u16, u16, u16),
    /// A full fill of the Neo's LCD strip
    LcdFillNeo,
    /// A full-screen logo upload through the vendor envelope
    Logo(Kind),
}

/// The fixed report length of a paged command.
pub open spec fn spec_command_report_length(cmd: PagedCommand) -> int {
    match cmd {
        PagedCommand::KeyImage(kind, _) => spec_image_report_length(kind),
        PagedCommand::LcdRegion(_, _, _, _) => 1024,
        PagedCommand::LcdFillNeo => 1024,
        PagedCommand::Logo(kind) => spec_mirabox_packet_length(kind),
    }
}

/// The payload bytes carried per page of a paged command whose data is `n`
/// bytes long.
pub open spec fn spec_command_payload_length(cmd: PagedCommand, n: nat) -> int {
    match cmd {
        PagedCommand::KeyImage(kind, _) => spec_key_image_payload_length(kind, n),
        PagedCommand::LcdRegion(_, _, _, _) => 1024 - 16,
        PagedCommand::LcdFillNeo => 1024 - 8,
        PagedCommand::Logo(kind) => spec_mirabox_packet_length(kind) - 1,
    }
}

/// The per-page header of a paged command.
pub open spec fn spec_command_header(
    cmd: PagedCommand,
    page: nat,
    this_length: nat,
    last: bool,
) -> Seq<u8> {
    match cmd {
        PagedCommand::KeyImage(kind, key) => {
            if kind == Kind::Original {
                seq![
                    0x02u8,
                    0x01,
                    lo8(page as int + 1),
                    0,
                    bool_byte(last),
                    lo8(key as int + 1),
                    0,
                    0,
                    0,
                    0,
                    0,
                    0,
                    0,
                    0,
                    0,
                    0,
                ]
            } else if kind == Kind::Mini || kind == Kind::MiniMk2 {
                seq![
                    0x02u8,
                    0x01,
                    lo8(page as int),
                    0,
                    bool_byte(last),
                    lo8(key as int + 1),
                    0,
                    0,
                    0,
                    0,
                    0,
                    0,
                    0,
                    0,
                    0,
                    0,
                ]
            } else if kind.spec_is_mirabox() {
                seq![0x00u8]
            } else {
                seq![
                    0x02u8,
                    0x07,
                    key,
                    bool_byte(last),
                    lo8(this_length as int),
                    hi8(this_length as int),
                    lo8(page as int),
                    hi8(page as int),
                ]
            }
        },
        PagedCommand::LcdRegion(x, y, w, h) => {
            seq![
                0x02u8,
                0x0c,
                lo8(x as int),
                hi8(x as int),
                lo8(y as int),
                hi8(y as int),
                lo8(w as int),
                hi8(w as int),
                lo8(h as int),
                hi8(h as int),
                bool_byte(last),
                lo8(page as int),
                hi8(page as int),
                lo8(this_length as int),
                hi8(this_length as int),
                0,
            ]
        },
        PagedCommand::LcdFillNeo => {
            seq![
                0x02u8,
                0x0b,
                0,
                bool_byte(last),
                lo8(this_length as int),
                hi8(this_length as int),
                lo8(page as int),
                hi8(page as int),
            ]
        },
        PagedCommand::Logo(_) => seq![0x00u8],
    }
}

/// The header length of a paged command.
pub open spec fn spec_command_header_length(cmd: PagedCommand) -> int {
    match cmd {
        PagedCommand::KeyImage(kind, _) => spec_image_report_header_length(kind),
        PagedCommand::LcdRegion(_, _, _, _) => 16,
        PagedCommand::LcdFillNeo => 8,
        PagedCommand::Logo(_) => 1,
    }
}

/// Whether a paged command's header and page payload fit its report length.
/// Only the first-revision Stream Deck can fail this, when its half-length
/// page no longer fits the report.
pub open spec fn spec_command_fits(cmd: PagedCommand, n: nat) -> bool {
    spec_command_header_length(cmd) + spec_command_payload_length(cmd, n)
        <= spec_command_report_length(cmd)
}

/// The report of page `i` of a paged command: header, then payload chunk, then
/// zero padding to the report length.
pub open spec fn spec_command_page(cmd: PagedCommand, data: Seq<u8>, i: nat) -> Seq<u8> {
    let p = spec_command_payload_length(cmd, data.len()) as nat;
    let chunk = spec_page_chunk(data, p, i);
    let h = spec_command_header(cmd, i, chunk.len(), spec_page_is_last(data.len(), p, i));
    h + chunk + zeros((spec_command_report_length(cmd) - h.len() - chunk.len()) as nat)
}

/// All reports of a paged command, in page order.
pub open spec fn spec_command_reports(cmd: PagedCommand, data: Seq<u8>) -> Seq<Seq<u8>> {
    Seq::new(
        spec_page_count(data.len(), spec_command_payload_length(cmd, data.len()) as nat),
        |i: int| spec_command_page(cmd, data, i as nat),
    )
}

/// Builds the per-page header of a paged command.
fn command_header(cmd: &PagedCommand, page: usize, this_length: usize, last: bool) -> (r: Vec<u8>)
    requires
        page < usize::MAX,
    ensures
        r@ == spec_command_header(*cmd, page as nat, this_length as nat, last),
        r@.len() == spec_command_header_length(*cmd),
{
    let last_byte: u8 = if last {
        1
    } else {
        0
    };
    let mut buf: Vec<u8> = Vec::new();
    match cmd {
        PagedCommand::KeyImage(kind, key) => {
            if matches!(kind, Kind::Original) {
                buf.push(0x02);
                buf.push(0x01);
                buf.push(((page + 1) % 256) as u8);
                buf.push(0);
                buf.push(last_byte);
                buf.push(((*key as usize + 1) % 256) as u8);
                pad_to(&mut buf, 16);
            } else if matches!(kind, Kind::Mini | Kind::MiniMk2) {
                buf.push(0x02);
                buf.push(0x01);
                buf.push((page % 256) as u8);
                buf.push(0);
                buf.push(last_byte);
                buf.push(((*key as usize + 1) % 256) as u8);
                pad_to(&mut buf, 16);
            } else if kind.is_mirabox() {
                buf.push(0x00);
            } else {
                buf.push(0x02);
                buf.push(0x07);
                buf.push(*key);
                buf.push(last_byte);
                buf.push((this_length % 256) as u8);
                buf.push(((this_length / 256) % 256) as u8);
                buf.push((page % 256) as u8);
                buf.push(((page / 256) % 256) as u8);
            }
        },
        PagedCommand::LcdRegion(x, y, w, h) => {
            buf.push(0x02);
            buf.push(0x0c);
            buf.push((*x % 256) as u8);
            buf.push(((*x as usize / 256) % 256) as u8);
            buf.push((*y % 256) as u8);
            buf.push(((*y as usize / 256) % 256) as u8);
            buf.push((*w % 256) as u8);
            buf.push(((*w as usize / 256) % 256) as u8);
            buf.push((*h % 256) as u8);
            buf.push(((*h as usize / 256) % 256) as u8);
            buf.push(last_byte);
            buf.push((page % 256) as u8);
            buf.push(((page / 256) % 256) as u8);
            buf.push((this_length % 256) as u8);
            buf.push(((this_length / 256) % 256) as u8);
            buf.push(0);
        },
        PagedCommand::LcdFillNeo => {
            buf.push(0x02);
            buf.push(0x0b);
            buf.push(0);
            buf.push(last_byte);
            buf.push((this_length % 256) as u8);
            buf.push(((this_length / 256) % 256) as u8);
            buf.push((page % 256) as u8);
            buf.push(((page / 256) % 256) as u8);
        },
        PagedCommand::Logo(_) => {
            buf.push(0x00);
        },
    }
    assert(buf@ =~= spec_command_header(*cmd, page as nat, this_length as nat, last));
    buf
}

/// Splits a payload into the full report buffers of a paged command: each
/// report is the page's header, its payload chunk, and zero padding to the
/// report length. Fails only when a page cannot fit the fixed report length.
pub fn command_pages(cmd: PagedCommand, data: &[u8]) -> (r: Result<Vec<Vec<u8>>, StreamDeckError>)
    ensures
        r is Ok <==> spec_command_fits(cmd, data@.len()),
        r matches Ok(pages) ==> pages@.len() == spec_command_reports(cmd, data@).len(),
        r matches Ok(pages) ==> forall|i: int|
            0 <= i < pages@.len() ==> (#[trigger] pages@[i])@ == spec_command_reports(
                cmd,
                data@,
            )[i],
        r is Err ==> r->Err_0 == StreamDeckError::ImageError,
{
    let n = data.len();
    let ghost n_g = data@.len();

    let payload_len: usize = match &cmd {
        PagedCommand::KeyImage(kind, _) => WriteImageParameters::for_key(
            *kind,
            n,
        ).image_report_payload_length,
        PagedCommand::LcdRegion(_, _, _, _) => 1024 - 16,
        PagedCommand::LcdFillNeo => 1024 - 8,
        PagedCommand::Logo(kind) => {
            if kind.is_mirabox_v2() {
                1024
            } else {
                512
            }
        },
    };
    let report_len: usize = match &cmd {
        PagedCommand::KeyImage(kind, _) => WriteImageParameters::for_key(
            *kind,
            n,
        ).image_report_length,
        PagedCommand::LcdRegion(_, _, _, _) => 1024,
        PagedCommand::LcdFillNeo => 1024,
        PagedCommand::Logo(kind) => {
            if kind.is_mirabox_v2() {
                1025
            } else {
                513
            }
        },
    };
    let header_len: usize = match &cmd {
        PagedCommand::KeyImage(kind, _) => {
            if matches!(kind, Kind::Original | Kind::Mini | Kind::MiniMk2) {
                16
            } else if kind.is_mirabox() {
                1
            } else {
                8
            }
        },
        PagedCommand::LcdRegion(_, _, _, _) => 16,
        PagedCommand::LcdFillNeo => 8,
        PagedCommand::Logo(_) => 1,
    };
    assert(payload_len as int == spec_command_payload_length(cmd, n_g));
    assert(report_len as int == spec_command_report_length(cmd));
    assert(header_len as int == spec_command_header_length(cmd));

    if header_len > report_len || payload_len > report_len - header_len {
        return Err(StreamDeckError::ImageError);
    }
    proof {
        match cmd {
            PagedCommand::KeyImage(kind, _) => {
                if kind == Kind::Original {
                    assert(spec_command_payload_length(cmd, n_g) >= 1);
                } else {
                    assert(spec_command_payload_length(cmd, n_g) >= 1);
                }
            },
            PagedCommand::LcdRegion(_, _, _, _) => {},
            PagedCommand::LcdFillNeo => {},
            PagedCommand::Logo(kind) => {},
        }
        assert(payload_len >= 1);
    }
    let ghost p = payload_len as nat;
    let ghost count = spec_page_count(n_g, p);
    proof {
        lemma_page_count_bounds(n_g, p);
    }

    let mut pages: Vec<Vec<u8>> = Vec::new();
    let mut page_number: usize = 0;
    let mut bytes_remaining: usize = n;

    while bytes_remaining > 0
        invariant
            payload_len as int == spec_command_payload_length(cmd, n_g),
            report_len as int == spec_command_report_length(cmd),
            header_len as int == spec_command_header_length(cmd),
            header_len + payload_len <= report_len,
            payload_len > 0,
            p == payload_len as nat,
            count == spec_page_count(n_g, p),
            n == n_g,
            n == data@.len(),
            bytes_remaining <= n,
            bytes_remaining > 0 ==> n - bytes_remaining == page_number * p,
            bytes_remaining == 0 ==> page_number == count,
            pages@.len() == page_number,
            forall|i: int|
                0 <= i < page_number ==> (#[trigger] pages@[i])@ == spec_command_page(
                    cmd,
                    data@,
                    i as nat,
                ),
        decreases bytes_remaining,
    {
        let this_length = if bytes_remaining < payload_len {
            bytes_remaining
        } else {
            payload_len
        };
        proof {
            assert(page_number * p == n_g - bytes_remaining);
            assert(page_number * p < n_g);
            lemma_page_index(n_g, p, page_number as nat);
            assert((page_number as nat + 1) * p == page_number * p + p) by (nonlinear_arith);
        }
        let bytes_sent = page_number * payload_len;
        let last = this_length == bytes_remaining;

        proof {
            lemma_mul_inequality(1, p as int, page_number as int);
            assert(page_number <= page_number * p);
        }
        let mut buf = command_header(&cmd, page_number, this_length, last);
        push_range(&mut buf, data, bytes_sent, bytes_sent + this_length);
        pad_to(&mut buf, report_len);

        proof {
            let i = page_number as nat;
            let chunk = spec_page_chunk(data@, p, i);
            assert(chunk =~= data@.subrange(
                bytes_sent as int,
                bytes_sent as int + this_length as int,
            ));
            assert(last == spec_page_is_last(n_g, p, i));
            assert(buf@ =~= spec_command_page(cmd, data@, i));
        }

        pages.push(buf);
        bytes_remaining -= this_length;
        page_number += 1;

        proof {
            if bytes_remaining == 0 {
                lemma_page_count_last(
                    n_g,
                    p,
                    (page_number - 1) as nat,
                    this_length as nat,
                );
            }
        }
    }
    proof {
        if n_g == 0 {
            assert(page_number == count);
        }
    }
    Ok(pages)
}

} // verus!
