//! The desync strategies, as pure transforms.
//!
//! A strategy takes the one captured ClientHello packet and returns the packets
//! to send in its place. It never touches any other packet. Keeping these pure
//! means the probe and the live filter engine run the exact same code: what the
//! probe measures is what production does.
//!
//! None of these hide or route traffic; they only shape the handshake so the
//! filter cannot read the server name in one clean segment. The server always
//! reassembles a valid stream.

use vstd::prelude::*;
use vstd::string::{StringExecFns, StringSliceAdditionalSpecFns};

use crate::checksum::{
    ipv4_checksum, lemma_pair_sum_bound, lemma_word_sum_bound, spec_ipv4_checksum, spec_tcp_checksum,
    spec_tcp_checksum_v6, tcp_checksum, tcp_checksum_v6, zero_field,
};
use crate::ffi::WinDivertAddress;
use crate::packet::{be16_at, find_sni, hello_extensions, sni_span, sni_span_from, TcpView};
use crate::text::{decimal, lossy_text, push_decimal};
use crate::windivert::Packet;

verus! {

/// One packet to put on the wire, and whether the send path should fix its
/// checksums. A decoy with a purposely broken checksum sets this to `false`.
pub struct Emit {
    pub packet: Packet,
    pub fix_checksums: bool,
}

/// Where to cut a ClientHello segment.
#[derive(Clone, Copy, Debug, PartialEq, Eq)]
pub enum Cut {
    /// Split so the SNI host name straddles the boundary (the filter can't
    /// read it whole). Falls back to a small fixed offset if there is no SNI.
    Sni,
    /// Split at a fixed number of bytes into the TLS record.
    Fixed(usize),
}

/// What a decoy packet does to fool the filter without reaching the server.
#[derive(Clone, Copy, Debug, PartialEq, Eq)]
pub enum Decoy {
    /// TTL (hop limit) low enough to die between the filter and the server.
    LowTtl(u8),
    /// Correct everything but the TCP checksum: the server's stack drops it, a
    /// filter that ignores checksums still consumes it.
    BadChecksum,
    /// A sequence number far outside the window, this far below the real one:
    /// the server discards it as out-of-order junk, a filter that scans every
    /// packet still reads it.
    WrongSeq(u32),
}

/// The strategies the probe tries and the engine applies. `Passthrough` is the
/// control: send the ClientHello untouched, to confirm the target really is
/// blocked before crediting any bypass.
#[derive(Clone, Copy, Debug, PartialEq, Eq)]
pub enum Strategy {
    Passthrough,
    /// Split into two segments at `cut`.
    Split { cut: Cut },
    /// Split at `cut` but send the second segment first (out of order).
    Disorder { cut: Cut },
    /// Send a decoy ClientHello, then the real one untouched.
    Fake { decoy: Decoy },
    /// Send a decoy, then split the real ClientHello.
    FakeSplit { decoy: Decoy, cut: Cut },
}

// ── The model: what each strategy puts on the wire ───────────────────────────

/// Two bytes holding `v` big-endian, truncated to 16 bits.
pub open spec fn be16_bytes(v: int) -> Seq<u8> {
    seq![((v / 256) % 256) as u8, (v % 256) as u8]
}

/// `b` with `v` written big-endian (truncated to 16 bits) at `at`.
pub open spec fn put_be16(b: Seq<u8>, at: int, v: int) -> Seq<u8> {
    b.update(at, ((v / 256) % 256) as u8).update(at + 1, (v % 256) as u8)
}

/// `b` with `v` written big-endian at `at`.
#[verifier::opaque]
pub open spec fn put_be32(b: Seq<u8>, at: int, v: u32) -> Seq<u8> {
    b.update(at, (v / 0x100_0000) as u8).update(at + 1, ((v / 0x1_0000) % 256) as u8).update(
        at + 2,
        ((v / 0x100) % 256) as u8,
    ).update(at + 3, (v % 256) as u8)
}

/// The TCP sequence number of the header starting at `t`.
pub open spec fn seq_at(b: Seq<u8>, t: int) -> u32 {
    (b[t + 4] as int * 0x100_0000 + b[t + 5] as int * 0x1_0000 + b[t + 6] as int * 0x100
        + b[t + 7] as int) as u32
}

/// `b` with its IP length field set for its own length: the IPv4 total length
/// (bytes 2..4), or the IPv6 payload length (bytes 4..6, excluding the fixed
/// 40-byte header). Truncated to 16 bits.
pub open spec fn with_ip_length(b: Seq<u8>, version: u8) -> Seq<u8> {
    if version == 4 {
        put_be16(b, 2, b.len() as int % 0x10000)
    } else {
        put_be16(b, 4, (b.len() - 40) % 0x10000)
    }
}

#[verifier::opaque]
/// One TCP segment built from `orig`: its IP and TCP headers, then `part` as
/// the payload, with the IP length and the sequence number fixed up.
pub open spec fn segment(orig: Seq<u8>, v: TcpView, part: Seq<u8>, seq: u32) -> Seq<u8> {
    put_be32(
        with_ip_length(orig.subrange(0, v.payload_offset as int) + part, v.version),
        v.tcp_offset + 4,
        seq,
    )
}

/// The TCP payload of `orig`.
pub open spec fn payload_of(orig: Seq<u8>, v: TcpView) -> Seq<u8> {
    orig.subrange(v.payload_offset as int, orig.len() as int)
}

#[verifier::opaque]
/// Where `cut` falls inside `payload`, if strictly inside it. `Cut::Sni` cuts
/// in the middle of the host name (by the length of its text in UTF-8), or two
/// bytes in when there is no name.
pub open spec fn spec_cut_offset(payload: Seq<u8>, cut: Cut) -> Option<int> {
    let n = match cut {
        Cut::Fixed(n) => n as int,
        Cut::Sni => match sni_span(payload) {
            Some((start, len)) => start + (vstd::utf8::encode_utf8(
                lossy_text(payload.subrange(start, start + len)),
            ).len() as usize) as int / 2,
            None => 2,
        },
    };
    if n == 0 || n >= payload.len() {
        None
    } else {
        Some(n)
    }
}

/// The packets a split puts on the wire, each with its fix-checksums flag: the
/// captured packet untouched when the cut does not fall strictly inside the payload,
/// otherwise two segments (second first with `disorder`).
pub open spec fn spec_split(orig: Seq<u8>, v: TcpView, cut: Cut, disorder: bool) -> Seq<
    (Seq<u8>, bool),
> {
    let payload = payload_of(orig, v);
    match spec_cut_offset(payload, cut) {
        None => seq![(orig, true)],
        Some(off) => {
            let s = seq_at(orig, v.tcp_offset as int);
            let a = segment(orig, v, payload.subrange(0, off), s);
            let b = segment(
                orig,
                v,
                payload.subrange(off, payload.len() as int),
                ((s + off) % 0x1_0000_0000) as u32,
            );
            if disorder {
                seq![(b, true), (a, true)]
            } else {
                seq![(a, true), (b, true)]
            }
        },
    }
}

/// The benign server name a decoy carries.
pub open spec fn benign_host() -> Seq<u8> {
    seq![119u8, 119, 119, 46, 103, 111, 111, 103, 108, 101, 46, 99, 111, 109]
}

#[verifier::opaque]
/// A minimal, well-formed TLS 1.2 ClientHello record naming `host`: record
/// header, handshake header, version, zero random, no session id, one cipher
/// suite, null compression, and a single server_name extension.
pub open spec fn client_hello(host: Seq<u8>) -> Seq<u8> {
    let n = host.len() as int;
    let ext = seq![0u8, 0u8] + be16_bytes(n + 5) + be16_bytes(n + 3) + seq![0u8] + be16_bytes(n)
        + host;
    let body = seq![3u8, 3u8] + Seq::new(32, |i: int| 0u8) + seq![0u8] + seq![0u8, 2, 0x13, 0x01]
        + seq![1u8, 0] + be16_bytes(ext.len() as int) + ext;
    let l = body.len() as int;
    let hs = seq![1u8] + seq![((l / 0x1_0000) % 256) as u8, ((l / 256) % 256) as u8, (l % 256) as u8]
        + body;
    seq![0x16u8, 3, 1] + be16_bytes(hs.len() as int) + hs
}

/// Where the TTL (IPv4) or hop limit (IPv6) sits.
pub open spec fn ttl_index(version: u8) -> int {
    if version == 4 {
        8
    } else {
        7
    }
}

/// The connection's own headers carrying the benign ClientHello, length fixed.
#[verifier::opaque]
pub open spec fn decoy_base(orig: Seq<u8>, v: TcpView) -> Seq<u8> {
    with_ip_length(orig.subrange(0, v.payload_offset as int) + client_hello(benign_host()), v.version)
}

#[verifier::opaque]
/// `d` with a TCP checksum that is exactly one more (mod 2^16) than the correct
/// one, and (for IPv4) a correct IP header checksum over the result.
pub open spec fn with_bad_checksum(d: Seq<u8>, v: TcpView) -> Seq<u8> {
    let t = v.tcp_offset as int;
    let tcp = d.subrange(t, d.len() as int);
    if v.version == 4 {
        let good = spec_tcp_checksum(v.src@.subrange(0, 4), v.dst@.subrange(0, 4), tcp);
        let d2 = put_be16(d, t + 16, (good + 1) % 0x10000);
        put_be16(d2, 10, spec_ipv4_checksum(d2.subrange(0, t)))
    } else {
        let good = spec_tcp_checksum_v6(v.src@, v.dst@, tcp);
        put_be16(d, t + 16, (good + 1) % 0x10000)
    }
}

/// The decoy packet and its fix-checksums flag.
pub open spec fn spec_decoy(orig: Seq<u8>, v: TcpView, d: Decoy) -> (Seq<u8>, bool) {
    let t = v.tcp_offset as int;
    let real_seq = seq_at(orig, t);
    let base = decoy_base(orig, v);
    match d {
        Decoy::LowTtl(ttl) => (put_be32(base, t + 4, real_seq).update(ttl_index(v.version), ttl), true),
        Decoy::BadChecksum => (with_bad_checksum(put_be32(base, t + 4, real_seq), v), false),
        Decoy::WrongSeq(o) => (
            put_be32(base, t + 4, ((real_seq - o) % 0x1_0000_0000) as u32),
            true,
        ),
    }
}

/// The packets a strategy puts on the wire in place of the ClientHello `orig`,
/// each with its fix-checksums flag.
pub open spec fn spec_apply(s: Strategy, orig: Seq<u8>, v: TcpView) -> Seq<(Seq<u8>, bool)> {
    match s {
        Strategy::Passthrough => seq![(orig, true)],
        Strategy::Split { cut } => spec_split(orig, v, cut, false),
        Strategy::Disorder { cut } => spec_split(orig, v, cut, true),
        Strategy::Fake { decoy } => seq![spec_decoy(orig, v, decoy), (orig, true)],
        Strategy::FakeSplit { decoy, cut } => seq![spec_decoy(orig, v, decoy)] + spec_split(
            orig,
            v,
            cut,
            false,
        ),
    }
}

/// `out` holds exactly the packets of `model`, each carrying `addr`.
pub open spec fn emits_are(out: Seq<Emit>, model: Seq<(Seq<u8>, bool)>, addr: WinDivertAddress) -> bool {
    &&& out.len() == model.len()
    &&& forall|i: int|
        0 <= i < out.len() ==> #[trigger] out[i].packet.data@ == model[i].0
            && out[i].fix_checksums == model[i].1 && out[i].packet.addr == addr
}

// ── The transforms ───────────────────────────────────────────────────────────

impl Strategy {
    /// Transform the captured ClientHello into the packets to send. Returns the
    /// captured packet untouched where the strategy cannot apply (a cut that falls
    /// outside the payload), so the caller always has something valid to send.
    #[verifier::spinoff_prover]
    pub fn apply(&self, orig: &Packet, view: &TcpView) -> (out: Vec<Emit>)
        requires
            view.describes(orig.data@),
            orig.data@.len() <= 0xFFFF,
        ensures
            emits_are(out@, spec_apply(*self, orig.data@, *view), orig.addr),
    {
        match self {
            Strategy::Passthrough => {
                let mut out = Vec::new();
                out.push(pass(orig));
                assert(spec_apply(*self, orig.data@, *view) == seq![(orig.data@, true)]);
                out
            },
            Strategy::Split { cut } => split(orig, view, *cut, false),
            Strategy::Disorder { cut } => split(orig, view, *cut, true),
            Strategy::Fake { decoy } => {
                let mut out = Vec::new();
                out.push(make_decoy(orig, view, *decoy));
                out.push(pass(orig));
                out
            },
            Strategy::FakeSplit { decoy, cut } => {
                let mut out = Vec::new();
                out.push(make_decoy(orig, view, *decoy));
                let mut rest = split(orig, view, *cut, false);
                let ghost first = out@;
                let ghost tail = rest@;
                out.append(&mut rest);
                assert(out@ =~= first + tail);
                assert(forall|i: int| 1 <= i < out@.len() ==> out@[i] == tail[i - 1]);
                out
            },
        }
    }
}

/// The captured packet, untouched, to be sent with fixed checksums.
fn pass(orig: &Packet) -> (e: Emit)
    ensures
        e.packet.data@ == orig.data@,
        e.packet.addr == orig.addr,
        e.fix_checksums,
{
    let data = orig.data.clone();
    assert(data@ =~= orig.data@);
    Emit { packet: Packet { data, addr: orig.addr }, fix_checksums: true }
}

/// Resolve a `Cut` to a byte offset strictly inside the TCP payload.
fn cut_offset(payload: &[u8], cut: Cut) -> (r: Option<usize>)
    requires
        payload@.len() <= isize::MAX,
    ensures
        spec_cut_offset(payload@, cut) == match r {
            Some(o) => Some(o as int),
            None => None::<int>,
        },
        r matches Some(o) ==> 0 < o < payload@.len(),
{
    reveal(spec_cut_offset);
    proof {
        crate::packet::lemma_sni_span_bounds(payload@);
    }
    let n: usize = match cut {
        Cut::Fixed(n) => n,
        Cut::Sni => match find_sni(payload) {
            // Cut in the middle of the host name so neither half is readable.
            Some((host, off)) => {
                let host_len = host.as_str().len();
                assert(isize::MAX as int + usize::MAX as int / 2 <= usize::MAX);
                off + host_len / 2
            },
            None => 2,
        },
    };
    if n == 0 || n >= payload.len() {
        None
    } else {
        Some(n)
    }
}

/// Split the ClientHello into two TCP segments at `cut`. With `disorder`, the
/// second segment is emitted first.
fn split(orig: &Packet, view: &TcpView, cut: Cut, disorder: bool) -> (out: Vec<Emit>)
    requires
        view.describes(orig.data@),
        orig.data@.len() <= 0xFFFF,
    ensures
        emits_are(out@, spec_split(orig.data@, *view, cut, disorder), orig.addr),
{
    proof {
        crate::packet::lemma_describes_bounds(*view, orig.data@);
    }
    let data = orig.data.as_slice();
    let payload = view.payload(data);
    let mut out = Vec::new();
    let off = match cut_offset(payload, cut) {
        Some(o) => o,
        None => {
            out.push(pass(orig));
            return out;
        },
    };
    let ghost pl = payload_of(orig.data@, *view);
    assert(payload@ == pl);
    assert(spec_cut_offset(pl, cut) == Some(off as int));
    let seq = read_seq(data, view.tcp_offset);
    let first = build_segment(data, view, vstd::slice::slice_subrange(payload, 0, off), seq, orig.addr);
    let second = build_segment(
        data,
        view,
        vstd::slice::slice_subrange(payload, off, payload.len()),
        seq.wrapping_add(off as u32),
        orig.addr,
    );
    let a = Emit { packet: first, fix_checksums: true };
    let b = Emit { packet: second, fix_checksums: true };
    if disorder {
        out.push(b);
        out.push(a);
    } else {
        out.push(a);
        out.push(b);
    }
    out
}

/// Build one TCP segment: the captured packet's IP and TCP headers followed by
/// `new_payload`, with the IP length and TCP sequence fields fixed up.
/// Checksums are left for the send path.
fn build_segment(
    orig: &[u8],
    view: &TcpView,
    new_payload: &[u8],
    seq: u32,
    addr: WinDivertAddress,
) -> (p: Packet)
    requires
        view.describes(orig@),
        orig@.len() <= 0xFFFF,
        new_payload@.len() <= orig@.len(),
    ensures
        p.data@ == segment(orig@, *view, new_payload@, seq),
        p.addr == addr,
{
    reveal(segment);
    proof {
        crate::packet::lemma_describes_bounds(*view, orig@);
    }
    let hdr = view.payload_offset;
    let mut data = Vec::with_capacity(hdr + new_payload.len());
    data.extend_from_slice(vstd::slice::slice_subrange(orig, 0, hdr));
    data.extend_from_slice(new_payload);
    assert(data@ =~= orig@.subrange(0, hdr as int) + new_payload@);
    set_ip_length(&mut data, view.version);
    write_seq(&mut data, view.tcp_offset, seq);
    Packet { data, addr }
}

/// Write the IP length field for the buffer's own length: the IPv4 total
/// length, or the IPv6 payload length.
fn set_ip_length(data: &mut Vec<u8>, version: u8)
    requires
        old(data)@.len() >= 40,
    ensures
        final(data)@ == with_ip_length(old(data)@, version),
{
    if version == 4 {
        let total = data.len() % 0x10000;
        data[2] = (total / 256) as u8;
        data[3] = (total % 256) as u8;
    } else {
        let plen = (data.len() - 40) % 0x10000;
        data[4] = (plen / 256) as u8;
        data[5] = (plen % 256) as u8;
    }
}

/// The TCP sequence number of the header at `tcp_offset`.
fn read_seq(data: &[u8], tcp_offset: usize) -> (r: u32)
    requires
        tcp_offset + 8 <= data.len(),
    ensures
        r == seq_at(data@, tcp_offset as int),
{
    (data[tcp_offset + 4] as u32) * 0x100_0000 + (data[tcp_offset + 5] as u32) * 0x1_0000
        + (data[tcp_offset + 6] as u32) * 0x100 + data[tcp_offset + 7] as u32
}

/// Write `seq` into the TCP header at `tcp_offset`.
fn write_seq(data: &mut Vec<u8>, tcp_offset: usize, seq: u32)
    requires
        tcp_offset + 8 <= old(data).len(),
    ensures
        final(data)@ == put_be32(old(data)@, tcp_offset + 4, seq),
        final(data)@.len() == old(data)@.len(),
{
    reveal(put_be32);
    data[tcp_offset + 4] = (seq / 0x100_0000) as u8;
    data[tcp_offset + 5] = ((seq / 0x1_0000) % 256) as u8;
    data[tcp_offset + 6] = ((seq / 0x100) % 256) as u8;
    data[tcp_offset + 7] = (seq % 256) as u8;
}

/// The connection's own headers followed by the benign ClientHello, with the
/// IP length fixed up.
fn decoy_base_bytes(orig: &Packet, view: &TcpView) -> (r: Vec<u8>)
    requires
        view.describes(orig.data@),
        orig.data@.len() <= 0xFFFF,
    ensures
        r@ == decoy_base(orig.data@, *view),
        r@.len() == view.payload_offset + 75,
{
    reveal(decoy_base);
    proof {
        crate::packet::lemma_describes_bounds(*view, orig.data@);
        lemma_client_hello_len(benign_host());
    }
    let hdr = view.payload_offset;
    let fake = benign_fake_hello();
    let mut data = Vec::with_capacity(hdr + fake.len());
    data.extend_from_slice(vstd::slice::slice_subrange(orig.data.as_slice(), 0, hdr));
    data.extend_from_slice(fake.as_slice());
    assert(data@ =~= orig.data@.subrange(0, hdr as int) + client_hello(benign_host()));
    set_ip_length(&mut data, view.version);
    data
}

/// Build a decoy: the connection's own IP and TCP headers carrying a benign
/// ClientHello (a different, unblocked server name), at the real sequence
/// number so a filter that keeps the first bytes it sees for a sequence records
/// the harmless name for this flow. The server discards the decoy (its TTL
/// expires, or its checksum or sequence is wrong), so only the real ClientHello
/// reaches it.
fn make_decoy(orig: &Packet, view: &TcpView, decoy: Decoy) -> (e: Emit)
    requires
        view.describes(orig.data@),
        orig.data@.len() <= 0xFFFF,
    ensures
        e.packet.data@ == spec_decoy(orig.data@, *view, decoy).0,
        e.fix_checksums == spec_decoy(orig.data@, *view, decoy).1,
        e.packet.addr == orig.addr,
{
    proof {
        crate::packet::lemma_describes_bounds(*view, orig.data@);
        lemma_client_hello_len(benign_host());
    }
    let t = view.tcp_offset;
    let mut data = decoy_base_bytes(orig, view);
    let real_seq = read_seq(orig.data.as_slice(), t);
    match decoy {
        Decoy::LowTtl(ttl) => {
            // Overlap the real sequence so the benign name lands where the
            // filter looks; die early via a low TTL.
            write_seq(&mut data, t, real_seq);
            if view.version == 4 {
                data[8] = ttl;
            } else {
                data[7] = ttl;
            }
            Emit { packet: Packet { data, addr: orig.addr }, fix_checksums: true }
        },
        Decoy::BadChecksum => {
            write_seq(&mut data, t, real_seq);
            break_tcp_checksum(&mut data, view);
            Emit { packet: Packet { data, addr: orig.addr }, fix_checksums: false }
        },
        Decoy::WrongSeq(offset) => {
            // A sequence far below the window: the server rejects it outright,
            // a filter that inspects every packet still sees the benign name.
            write_seq(&mut data, t, real_seq.wrapping_sub(offset));
            Emit { packet: Packet { data, addr: orig.addr }, fix_checksums: true }
        },
    }
}

/// Correct the TCP checksum, then break it by one so it is definitely invalid:
/// the server drops the decoy, a filter that skips checksum validation still
/// reads the benign name. An IPv4 header gets its own checksum recomputed.
fn break_tcp_checksum(data: &mut Vec<u8>, view: &TcpView)
    requires
        view.version == 4 || view.version == 6,
        view.version == 4 ==> 20 <= view.tcp_offset <= 60,
        view.tcp_offset + 20 <= old(data)@.len() <= view.tcp_offset + 65600,
    ensures
        final(data)@ == with_bad_checksum(old(data)@, *view),
{
    reveal(with_bad_checksum);
    let t = view.tcp_offset;
    let n = data.len();
    let ghost d1 = data@;
    proof {
        let tcp = d1.subrange(t as int, n as int);
        lemma_word_sum_bound(zero_field(tcp, 16));
        lemma_pair_sum_bound(view.src@, 8);
        lemma_pair_sum_bound(view.dst@, 8);
        assert(65535 * (tcp.len() / 2) <= 65535 * 32800) by (nonlinear_arith)
            requires
                tcp.len() <= 65600,
        ;
    }
    let good = if view.version == 4 {
        let src4 = [view.src[0], view.src[1], view.src[2], view.src[3]];
        let dst4 = [view.dst[0], view.dst[1], view.dst[2], view.dst[3]];
        assert(src4@ =~= view.src@.subrange(0, 4));
        assert(dst4@ =~= view.dst@.subrange(0, 4));
        tcp_checksum(src4, dst4, vstd::slice::slice_subrange(data.as_slice(), t, n))
    } else {
        tcp_checksum_v6(&view.src, &view.dst, vstd::slice::slice_subrange(data.as_slice(), t, n))
    };
    let bad = good.wrapping_add(1);
    data[t + 16] = (bad / 256) as u8;
    data[t + 17] = (bad % 256) as u8;
    assert(data@ =~= put_be16(d1, t + 16, (good + 1) % 0x10000));
    if view.version == 4 {
        let ghost d2 = data@;
        proof {
            lemma_word_sum_bound(zero_field(d2.subrange(0, t as int), 10));
            assert(65535 * (t / 2) <= 65535 * 30) by (nonlinear_arith)
                requires
                    t <= 60,
            ;
        }
        let ip_sum = ipv4_checksum(vstd::slice::slice_subrange(data.as_slice(), 0, t));
        data[10] = (ip_sum / 256) as u8;
        data[11] = (ip_sum % 256) as u8;
        assert(data@ =~= put_be16(d2, 10, spec_ipv4_checksum(d2.subrange(0, t as int))));
    }
}

proof fn lemma_client_hello_len(host: Seq<u8>)
    ensures
        client_hello(host).len() == 61 + host.len(),
{
    reveal(client_hello);
}

/// The decoy body: a benign ClientHello for an unblocked server name.
fn benign_fake_hello() -> (r: Vec<u8>)
    ensures
        r@ == client_hello(benign_host()),
{
    let host = "www.google.com";
    proof {
        reveal_strlit("www.google.com");
        vstd::string::is_ascii_spec_bytes(host);
    }
    assert(host.spec_bytes() =~= benign_host());
    build_client_hello(host)
}

/// Append `v` as two big-endian bytes, truncated to 16 bits.
fn push_be16(out: &mut Vec<u8>, v: usize)
    ensures
        final(out)@ == old(out)@ + be16_bytes(v as int),
{
    out.push(((v / 256) % 256) as u8);
    out.push((v % 256) as u8);
    assert(final(out)@ =~= old(out)@ + be16_bytes(v as int));
}

/// Build a minimal but well-formed TLS 1.2 ClientHello record for `sni`. It
/// only needs to look real enough that a filter reads the server name from it.
pub fn build_client_hello(sni: &str) -> (r: Vec<u8>)
    requires
        sni.spec_bytes().len() <= isize::MAX,
    ensures
        r@ == client_hello(sni.spec_bytes()),
{
    reveal(client_hello);
    let host = sni.as_bytes();
    let n = host.len();
    let mut ext = Vec::new();
    ext.push(0x00u8);
    ext.push(0x00u8);  // server_name extension
    push_be16(&mut ext, n + 5);
    push_be16(&mut ext, n + 3);
    ext.push(0x00u8);  // host name
    push_be16(&mut ext, n);
    ext.extend_from_slice(host);
    assert(ext@ =~= seq![0u8, 0u8] + be16_bytes(n + 5) + be16_bytes(n + 3) + seq![0u8]
        + be16_bytes(n as int) + host@);

    let mut body = Vec::new();
    body.push(0x03u8);
    body.push(0x03u8);  // TLS 1.2
    let random = [0u8; 32];
    body.extend_from_slice(random.as_slice());
    body.push(0x00u8);  // no session id
    body.push(0x00u8);
    body.push(0x02u8);
    body.push(0x13u8);
    body.push(0x01u8);  // one cipher suite
    body.push(0x01u8);
    body.push(0x00u8);  // null compression
    push_be16(&mut body, ext.len());
    body.extend_from_slice(ext.as_slice());
    assert(body@ =~= seq![3u8, 3u8] + Seq::new(32, |i: int| 0u8) + seq![0u8] + seq![
        0u8,
        2,
        0x13,
        0x01,
    ] + seq![1u8, 0] + be16_bytes(ext@.len() as int) + ext@);

    let mut hs = Vec::new();
    hs.push(0x01u8);  // ClientHello
    let l = body.len();
    hs.push(((l / 0x1_0000) % 256) as u8);
    hs.push(((l / 256) % 256) as u8);
    hs.push((l % 256) as u8);
    hs.extend_from_slice(body.as_slice());
    assert(hs@ =~= seq![1u8] + seq![
        ((l / 0x1_0000) % 256) as u8,
        ((l / 256) % 256) as u8,
        (l % 256) as u8,
    ] + body@);

    let mut rec = Vec::new();
    rec.push(0x16u8);  // handshake record
    rec.push(0x03u8);
    rec.push(0x01u8);
    push_be16(&mut rec, hs.len());
    rec.extend_from_slice(hs.as_slice());
    assert(rec@ =~= seq![0x16u8, 3, 1] + be16_bytes(hs@.len() as int) + hs@);
    rec
}

// ── Labels and the probe battery ─────────────────────────────────────────────

/// The label text of a cut: `sni`, or `at` and the offset.
pub open spec fn cut_text(c: Cut) -> Seq<char> {
    match c {
        Cut::Sni => "sni"@,
        Cut::Fixed(n) => "at"@ + decimal(n as nat),
    }
}

/// The label text of a decoy: `ttl` and the TTL, `badsum`, or `wseq` and the
/// offset.
pub open spec fn decoy_text(d: Decoy) -> Seq<char> {
    match d {
        Decoy::LowTtl(t) => "ttl"@ + decimal(t as nat),
        Decoy::BadChecksum => "badsum"@,
        Decoy::WrongSeq(o) => "wseq"@ + decimal(o as nat),
    }
}

/// The label text of a strategy, e.g. `fakesplit:ttl6:sni`.
pub open spec fn label_text(s: Strategy) -> Seq<char> {
    match s {
        Strategy::Passthrough => "passthrough"@,
        Strategy::Split { cut } => "split:"@ + cut_text(cut),
        Strategy::Disorder { cut } => "disorder:"@ + cut_text(cut),
        Strategy::Fake { decoy } => "fake:"@ + decoy_text(decoy),
        Strategy::FakeSplit { decoy, cut } => "fakesplit:"@ + decoy_text(decoy) + ":"@ + cut_text(
            cut,
        ),
    }
}

/// The TTL values the sweep tries, low first: 2 to 9.
pub open spec fn ttl_sweep(i: int) -> u8 {
    (i + 2) as u8
}

/// The probe's default battery, cheapest first: pure splits, then the
/// sequence and checksum fakes that need no TTL guess, then the TTL sweep,
/// then the fake-and-split combinations.
pub open spec fn battery() -> Seq<Strategy> {
    seq![
        Strategy::Split { cut: Cut::Sni },
        Strategy::Split { cut: Cut::Fixed(2) },
        Strategy::Disorder { cut: Cut::Sni },
        Strategy::Fake { decoy: Decoy::WrongSeq(10_000) },
        Strategy::Fake { decoy: Decoy::BadChecksum },
    ] + Seq::new(8, |i: int| Strategy::Fake { decoy: Decoy::LowTtl(ttl_sweep(i)) }) + seq![
        Strategy::FakeSplit { decoy: Decoy::WrongSeq(10_000), cut: Cut::Sni },
        Strategy::FakeSplit { decoy: Decoy::BadChecksum, cut: Cut::Sni },
    ] + Seq::new(8, |i: int| Strategy::FakeSplit { decoy: Decoy::LowTtl(ttl_sweep(i)), cut: Cut::Sni })
}

impl Strategy {
    /// A short stable label used in reports and as a command-line and config
    /// token.
    pub fn label(&self) -> (r: String)
        ensures
            r@ == label_text(*self),
    {
        match self {
            Strategy::Passthrough => String::from_str("passthrough"),
            Strategy::Split { cut } => {
                let mut s = String::from_str("split:");
                s.append(cut_label(cut).as_str());
                s
            },
            Strategy::Disorder { cut } => {
                let mut s = String::from_str("disorder:");
                s.append(cut_label(cut).as_str());
                s
            },
            Strategy::Fake { decoy } => {
                let mut s = String::from_str("fake:");
                s.append(decoy_label(decoy).as_str());
                s
            },
            Strategy::FakeSplit { decoy, cut } => {
                let mut s = String::from_str("fakesplit:");
                s.append(decoy_label(decoy).as_str());
                s.append(":");
                s.append(cut_label(cut).as_str());
                s
            },
        }
    }

    /// The default battery the probe walks, cheapest and most likely first.
    pub fn probe_battery() -> (r: Vec<Strategy>)
        ensures
            r@ == battery(),
    {
        let mut b = Vec::new();
        b.push(Strategy::Split { cut: Cut::Sni });
        b.push(Strategy::Split { cut: Cut::Fixed(2) });
        b.push(Strategy::Disorder { cut: Cut::Sni });
        b.push(Strategy::Fake { decoy: Decoy::WrongSeq(10_000) });
        b.push(Strategy::Fake { decoy: Decoy::BadChecksum });
        // TTL sweep: find the hop where the DPI sits without knowing it.
        let mut ttl: u8 = 2;
        while ttl <= 9
            invariant
                2 <= ttl <= 10,
                b@.len() == 5 + (ttl - 2),
                forall|i: int| 0 <= i < 5 ==> b@[i] == battery()[i],
                forall|i: int| 0 <= i < ttl - 2 ==> b@[5 + i] == (Strategy::Fake { decoy: Decoy::LowTtl(ttl_sweep(i)) }),
            decreases 10 - ttl,
        {
            b.push(Strategy::Fake { decoy: Decoy::LowTtl(ttl) });
            ttl = ttl + 1;
        }
        b.push(Strategy::FakeSplit { decoy: Decoy::WrongSeq(10_000), cut: Cut::Sni });
        b.push(Strategy::FakeSplit { decoy: Decoy::BadChecksum, cut: Cut::Sni });
        let mut ttl: u8 = 2;
        while ttl <= 9
            invariant
                2 <= ttl <= 10,
                b@.len() == 15 + (ttl - 2),
                forall|i: int| 0 <= i < 15 ==> b@[i] == battery()[i],
                forall|i: int| 0 <= i < ttl - 2 ==> b@[15 + i] == (Strategy::FakeSplit { decoy: Decoy::LowTtl(ttl_sweep(i)), cut: Cut::Sni }),
            decreases 10 - ttl,
        {
            b.push(Strategy::FakeSplit { decoy: Decoy::LowTtl(ttl), cut: Cut::Sni });
            ttl = ttl + 1;
        }
        assert(b@ =~= battery());
        b
    }
}

fn cut_label(cut: &Cut) -> (r: String)
    ensures
        r@ == cut_text(*cut),
{
    match cut {
        Cut::Sni => String::from_str("sni"),
        Cut::Fixed(n) => {
            let mut s = String::from_str("at");
            push_decimal(&mut s, *n as u128);
            s
        },
    }
}

fn decoy_label(d: &Decoy) -> (r: String)
    ensures
        r@ == decoy_text(*d),
{
    match d {
        Decoy::LowTtl(t) => {
            let mut s = String::from_str("ttl");
            push_decimal(&mut s, *t as u128);
            s
        },
        Decoy::BadChecksum => String::from_str("badsum"),
        Decoy::WrongSeq(o) => {
            let mut s = String::from_str("wseq");
            push_decimal(&mut s, *o as u128);
            s
        },
    }
}

// ── Laws ─────────────────────────────────────────────────────────────────────

proof fn lemma_be16_roundtrip(v: int)
    requires
        0 <= v < 0x10000,
    ensures
        be16_bytes(v)[0] as int * 256 + be16_bytes(v)[1] as int == v,
{
}

/// A ClientHello built for `host` gives `host` back: the server-name scan
/// finds the name right after the fixed 61-byte prefix, with its full length.
pub proof fn law_client_hello_names_its_host(host: Seq<u8>)
    requires
        host.len() <= 65479,
    ensures
        sni_span(client_hello(host)) == Some((61int, host.len() as int)),
        client_hello(host).subrange(61, 61 + host.len() as int) == host,
{
    reveal(client_hello);
    let b = client_hello(host);
    let n = host.len() as int;
    lemma_be16_roundtrip(n + 5);
    lemma_be16_roundtrip(n + 3);
    lemma_be16_roundtrip(n);
    lemma_be16_roundtrip(n + 9);
    lemma_be16_roundtrip(n + 56);
    assert(b.len() == 61 + n);
    assert(b[0] == 22);
    assert(b[5] == 1);
    assert(b[43] == 0);
    assert(be16_at(b, 44) == 2);
    assert(b[48] == 1);
    assert(be16_at(b, 50) == n + 9);
    assert(hello_extensions(b) == Some((52int, 61 + n)));
    assert(be16_at(b, 52) == 0);
    assert(be16_at(b, 54) == n + 5);
    assert(be16_at(b, 59) == n);
    assert(sni_span_from(b, 52, 61 + n) == Some((61int, n)));
    assert(b.subrange(61, 61 + n) =~= host);
}

proof fn lemma_with_ip_length_keeps(b: Seq<u8>, version: u8, i: int)
    requires
        6 <= i < b.len(),
        b.len() >= 40,
    ensures
        with_ip_length(b, version).len() == b.len(),
        with_ip_length(b, version)[i] == b[i],
{
}

/// Every decoy carries the benign ClientHello as its payload, whatever else it
/// breaks: a filter that reads its server name reads `www.google.com`, never
/// the real (blocked) name.
pub proof fn law_decoy_carries_the_benign_name(orig: Seq<u8>, v: TcpView, d: Decoy)
    requires
        v.describes(orig),
    ensures
        ({
            let decoy = spec_decoy(orig, v, d).0;
            let payload = decoy.subrange(v.payload_offset as int, decoy.len() as int);
            &&& payload == client_hello(benign_host())
            &&& sni_span(payload) == Some((61int, 14int))
            &&& payload.subrange(61, 75) == benign_host()
        }),
{
    crate::packet::lemma_describes_bounds(v, orig);
    lemma_client_hello_len(benign_host());
    law_client_hello_names_its_host(benign_host());
    let t = v.tcp_offset as int;
    let h = v.payload_offset as int;
    let hello = client_hello(benign_host());
    let base = decoy_base(orig, v);
    let raw = orig.subrange(0, h) + hello;
    reveal(decoy_base);
    reveal(with_bad_checksum);
    assert(base.len() == h + 75);
    assert forall|i: int| h <= i < h + 75 implies #[trigger] base[i] == hello[i - h] by {
        lemma_with_ip_length_keeps(raw, v.version, i);
    }
    let real_seq = seq_at(orig, t);
    let decoy = spec_decoy(orig, v, d).0;
    let d1 = put_be32(base, t + 4, real_seq);
    lemma_put_be32_keeps(base, t + 4, real_seq);
    match d {
        Decoy::LowTtl(ttl) => {
            assert(decoy == d1.update(ttl_index(v.version), ttl));
        },
        Decoy::BadChecksum => {
            assert(decoy == with_bad_checksum(d1, v));
        },
        Decoy::WrongSeq(o) => {
            lemma_put_be32_keeps(base, t + 4, ((real_seq - o) % 0x1_0000_0000) as u32);
        },
    }
    assert(decoy.len() == h + 75);
    assert forall|i: int| h <= i < h + 75 implies #[trigger] decoy[i] == hello[i - h] by {
        if let Decoy::WrongSeq(o) = d {
            lemma_put_be32_keeps(base, t + 4, ((real_seq - o) % 0x1_0000_0000) as u32);
        }
    }
    assert(decoy.subrange(h, decoy.len() as int) =~= hello);
}

/// The decoy with a broken checksum really is broken: the value in its TCP
/// checksum field is not the checksum its own segment has.
pub proof fn law_bad_checksum_decoy_is_wrong(orig: Seq<u8>, v: TcpView)
    requires
        v.describes(orig),
    ensures
        ({
            let decoy = spec_decoy(orig, v, Decoy::BadChecksum).0;
            let t = v.tcp_offset as int;
            let tcp = decoy.subrange(t, decoy.len() as int);
            let stored = be16_at(decoy, t + 16);
            &&& !spec_decoy(orig, v, Decoy::BadChecksum).1
            &&& v.version == 4 ==> stored != spec_tcp_checksum(
                v.src@.subrange(0, 4),
                v.dst@.subrange(0, 4),
                tcp,
            )
            &&& v.version == 6 ==> stored != spec_tcp_checksum_v6(v.src@, v.dst@, tcp)
        }),
{
    crate::packet::lemma_describes_bounds(v, orig);
    lemma_client_hello_len(benign_host());
    let t = v.tcp_offset as int;
    let base = decoy_base(orig, v);
    reveal(decoy_base);
    reveal(with_bad_checksum);
    let d1 = put_be32(base, t + 4, seq_at(orig, t));
    lemma_put_be32_keeps(base, t + 4, seq_at(orig, t));
    let tcp1 = d1.subrange(t, d1.len() as int);
    let decoy = with_bad_checksum(d1, v);
    let tcp = decoy.subrange(t, decoy.len() as int);
    assert forall|i: int| 0 <= i < tcp.len() && i != 16 && i != 17 implies tcp[i] == tcp1[i] by {}
    crate::checksum::law_tcp_checksum_ignores_its_field(v.src@.subrange(0, 4), v.dst@.subrange(0, 4), tcp, tcp1);
    crate::checksum::law_tcp_checksum_ignores_its_field(v.src@, v.dst@, tcp, tcp1);
    crate::checksum::lemma_ones_complement_range(
        crate::checksum::pseudo_v4(v.src@.subrange(0, 4), v.dst@.subrange(0, 4), tcp1.len()),
        zero_field(tcp1, 16),
    );
    crate::checksum::lemma_ones_complement_range(
        crate::checksum::pseudo_v6(v.src@, v.dst@, tcp1.len()),
        zero_field(tcp1, 16),
    );
}

proof fn lemma_put_be32_keeps(b: Seq<u8>, at: int, v: u32)
    requires
        0 <= at,
        at + 4 <= b.len(),
    ensures
        put_be32(b, at, v).len() == b.len(),
        forall|i: int| 0 <= i < b.len() && (i < at || i >= at + 4) ==> #[trigger] put_be32(b, at, v)[i] == b[i],
{
    reveal(put_be32);
}

proof fn lemma_put_be32_reads_back(b: Seq<u8>, t: int, v: u32)
    requires
        0 <= t,
        t + 8 <= b.len(),
    ensures
        seq_at(put_be32(b, t + 4, v), t) == v,
{
    reveal(put_be32);
    let r = put_be32(b, t + 4, v);
    assert(r[t + 4] == (v / 0x100_0000) as u8);
    assert(r[t + 5] == ((v / 0x1_0000) % 256) as u8);
    assert(r[t + 6] == ((v / 0x100) % 256) as u8);
    assert(r[t + 7] == (v % 256) as u8);
    assert((v / 0x100_0000) * 0x100_0000 + ((v / 0x1_0000) % 256) * 0x1_0000 + ((v / 0x100) % 256)
        * 0x100 + v % 256 == v) by (bit_vector);
}

proof fn lemma_cut_offset_inside(payload: Seq<u8>, cut: Cut)
    ensures
        spec_cut_offset(payload, cut) matches Some(o) ==> 0 < o < payload.len(),
{
    reveal(spec_cut_offset);
    crate::packet::lemma_sni_span_bounds(payload);
}

proof fn lemma_segment_facts(orig: Seq<u8>, v: TcpView, part: Seq<u8>, seq: u32)
    requires
        v.describes(orig),
    ensures
        segment(orig, v, part, seq).len() == v.payload_offset + part.len(),
        segment(orig, v, part, seq).subrange(
            v.payload_offset as int,
            v.payload_offset + part.len(),
        ) == part,
        seq_at(segment(orig, v, part, seq), v.tcp_offset as int) == seq,
{
    reveal(segment);
    crate::packet::lemma_describes_bounds(v, orig);
    let h = v.payload_offset as int;
    let t = v.tcp_offset as int;
    let raw = orig.subrange(0, h) + part;
    let w = with_ip_length(raw, v.version);
    assert(w.len() == raw.len());
    lemma_put_be32_keeps(w, t + 4, seq);
    lemma_put_be32_reads_back(w, t, seq);
    let r = put_be32(w, t + 4, seq);
    assert forall|i: int| h <= i < r.len() implies #[trigger] r[i] == part[i - h] by {
        lemma_with_ip_length_keeps(raw, v.version, i);
    }
    assert(r.subrange(h, h + part.len()) =~= part);
}

/// A split loses nothing and reorders nothing the server can see: the two
/// segments' payloads, in sequence-number order, are the captured payload, the
/// first segment keeps the captured sequence number and the second continues
/// right after the first one's bytes.
pub proof fn law_split_reassembles(orig: Seq<u8>, v: TcpView, cut: Cut, disorder: bool)
    requires
        v.describes(orig),
        spec_cut_offset(payload_of(orig, v), cut) is Some,
    ensures
        ({
            let segs = spec_split(orig, v, cut, disorder);
            let first = if disorder { segs[1].0 } else { segs[0].0 };
            let second = if disorder { segs[0].0 } else { segs[1].0 };
            let h = v.payload_offset as int;
            let t = v.tcp_offset as int;
            &&& segs.len() == 2
            &&& first.subrange(h, first.len() as int) + second.subrange(h, second.len() as int)
                == payload_of(orig, v)
            &&& seq_at(first, t) == seq_at(orig, t)
            &&& seq_at(second, t) == (seq_at(orig, t) + (first.len() - h)) % 0x1_0000_0000
        }),
{
    crate::packet::lemma_describes_bounds(v, orig);
    let payload = payload_of(orig, v);
    lemma_cut_offset_inside(payload, cut);
    let off = spec_cut_offset(payload, cut)->0;
    let t = v.tcp_offset as int;
    let s = seq_at(orig, t);
    let s2 = ((s + off) % 0x1_0000_0000) as u32;
    let pa = payload.subrange(0, off);
    let pb = payload.subrange(off, payload.len() as int);
    lemma_segment_facts(orig, v, pa, s);
    lemma_segment_facts(orig, v, pb, s2);
    assert(pa + pb =~= payload);
}

/// Out of order is the same segments the other way round: applying
/// `Disorder` sends exactly what applying `Split` at the same cut sends, last
/// first (the one untouched packet, where the cut cannot apply).
pub proof fn law_disorder_reverses_split(orig: Seq<u8>, v: TcpView, cut: Cut)
    ensures
        spec_apply(Strategy::Disorder { cut }, orig, v) == spec_apply(
            Strategy::Split { cut },
            orig,
            v,
        ).reverse(),
        spec_split(orig, v, cut, true) == spec_split(orig, v, cut, false).reverse(),
{
    let plain = spec_split(orig, v, cut, false);
    assert(spec_split(orig, v, cut, true) =~= plain.reverse());
}

/// What each decoy does to the headers it copies: a low-TTL decoy carries the
/// TTL (IPv4) or hop limit (IPv6) it was given at the connection's real
/// sequence number, a bad-checksum decoy keeps the real sequence number, and a
/// wrong-sequence decoy sits its offset below it (wrapping).
pub proof fn law_decoy_headers(orig: Seq<u8>, v: TcpView, d: Decoy)
    requires
        v.describes(orig),
    ensures
        ({
            let decoy = spec_decoy(orig, v, d).0;
            let t = v.tcp_offset as int;
            let real_seq = seq_at(orig, t);
            match d {
                Decoy::LowTtl(ttl) => decoy[ttl_index(v.version)] == ttl && seq_at(decoy, t) == real_seq,
                Decoy::BadChecksum => seq_at(decoy, t) == real_seq,
                Decoy::WrongSeq(o) => seq_at(decoy, t) == (real_seq - o) % 0x1_0000_0000,
            }
        }),
{
    crate::packet::lemma_describes_bounds(v, orig);
    lemma_client_hello_len(benign_host());
    reveal(decoy_base);
    let t = v.tcp_offset as int;
    let h = v.payload_offset as int;
    let base = decoy_base(orig, v);
    assert(base.len() == h + 75);
    let real_seq = seq_at(orig, t);
    match d {
        Decoy::LowTtl(ttl) => {
            let d1 = put_be32(base, t + 4, real_seq);
            lemma_put_be32_keeps(base, t + 4, real_seq);
            lemma_put_be32_reads_back(base, t, real_seq);
            let decoy = d1.update(ttl_index(v.version), ttl);
            assert(seq_at(decoy, t) == seq_at(d1, t));
        },
        Decoy::BadChecksum => {
            reveal(with_bad_checksum);
            let d1 = put_be32(base, t + 4, real_seq);
            lemma_put_be32_keeps(base, t + 4, real_seq);
            lemma_put_be32_reads_back(base, t, real_seq);
            let decoy = with_bad_checksum(d1, v);
            assert(seq_at(decoy, t) == seq_at(d1, t));
        },
        Decoy::WrongSeq(o) => {
            let s = ((real_seq - o) % 0x1_0000_0000) as u32;
            lemma_put_be32_reads_back(base, t, s);
        },
    }
}

/// Every decoy is a well-formed packet of its own length: the connection's
/// headers followed by the 75-byte benign ClientHello, with the IP length
/// field saying exactly that (the IPv4 total length, or the IPv6 payload
/// length, which leaves out the fixed 40-byte header). This holds for the
/// decoy that `Fake` and `FakeSplit` send first.
pub proof fn law_decoy_ip_length(orig: Seq<u8>, v: TcpView, d: Decoy, cut: Cut)
    requires
        v.describes(orig),
        v.payload_offset + 75 <= 0xFFFF,
    ensures
        ({
            let decoy = spec_apply(Strategy::Fake { decoy: d }, orig, v)[0].0;
            &&& decoy == spec_apply(Strategy::FakeSplit { decoy: d, cut }, orig, v)[0].0
            &&& decoy.len() == v.payload_offset + 75
            &&& v.version == 4 ==> decoy[2] as int * 256 + decoy[3] as int == decoy.len()
            &&& v.version == 6 ==> decoy[4] as int * 256 + decoy[5] as int == decoy.len() - 40
        }),
{
    crate::packet::lemma_describes_bounds(v, orig);
    lemma_client_hello_len(benign_host());
    reveal(decoy_base);
    reveal(with_bad_checksum);
    let t = v.tcp_offset as int;
    let h = v.payload_offset as int;
    let raw = orig.subrange(0, h) + client_hello(benign_host());
    let base = decoy_base(orig, v);
    assert(raw.len() == h + 75);
    assert(base.len() == h + 75);
    let n = h + 75;
    if v.version == 4 {
        lemma_be16_roundtrip(n);
        assert(base[2] == be16_bytes(n)[0] && base[3] == be16_bytes(n)[1]);
    } else {
        lemma_be16_roundtrip(n - 40);
        assert(base[4] == be16_bytes(n - 40)[0] && base[5] == be16_bytes(n - 40)[1]);
    }
    let real_seq = seq_at(orig, t);
    let decoy = spec_decoy(orig, v, d).0;
    let d1 = put_be32(base, t + 4, real_seq);
    lemma_put_be32_keeps(base, t + 4, real_seq);
    if let Decoy::WrongSeq(o) = d {
        lemma_put_be32_keeps(base, t + 4, ((real_seq - o) % 0x1_0000_0000) as u32);
    }
    assert(decoy.len() == n);
    assert forall|i: int| 0 <= i < 7 implies #[trigger] decoy[i] == base[i] by {
        if let Decoy::WrongSeq(o) = d {
            lemma_put_be32_keeps(base, t + 4, ((real_seq - o) % 0x1_0000_0000) as u32);
        }
    }
    assert(spec_apply(Strategy::Fake { decoy: d }, orig, v)[0].0 == decoy);
    assert(spec_apply(Strategy::FakeSplit { decoy: d, cut }, orig, v)[0].0 == decoy);
}

/// The fixed bytes of a ClientHello built for `host` that the server-name
/// scan reads.
proof fn lemma_client_hello_fields(host: Seq<u8>)
    requires
        host.len() <= 65479,
    ensures
        ({
            let b = client_hello(host);
            let n = host.len() as int;
            &&& b.len() == 61 + n
            &&& b[0] == 22
            &&& b[5] == 1
            &&& b[43] == 0
            &&& be16_at(b, 44) == 2
            &&& b[48] == 1
            &&& be16_at(b, 52) == 0
            &&& be16_at(b, 54) == n + 5
            &&& be16_at(b, 59) == n
            &&& b.subrange(61, 61 + n) == host
        }),
{
    reveal(client_hello);
    let b = client_hello(host);
    let n = host.len() as int;
    lemma_be16_roundtrip(n + 5);
    lemma_be16_roundtrip(n + 3);
    lemma_be16_roundtrip(n);
    lemma_be16_roundtrip(n + 9);
    lemma_be16_roundtrip(n + 56);
    assert(b.len() == 61 + n);
    assert(be16_at(b, 52) == 0);
    assert(be16_at(b, 54) == n + 5);
    assert(be16_at(b, 59) == n);
    assert(b.subrange(61, 61 + n) =~= host);
}

/// The server-name scan reads only the bytes present: a ClientHello whose
/// server_name extension lies complete in the segment gives its name back
/// whatever its extensions-length field declares (as when a large ClientHello
/// spans two segments and this is the first) and whatever follows the
/// extension. Here for a ClientHello built for `host`, with any bytes `extra`
/// after it and any value `x` (at least one extension header's worth) in its
/// extensions-length field.
pub proof fn law_sni_scan_reads_the_bytes_present(host: Seq<u8>, extra: Seq<u8>, x: int)
    requires
        host.len() <= 65479,
        4 <= x <= 0xFFFF,
    ensures
        ({
            let b = put_be16(client_hello(host) + extra, 50, x);
            &&& sni_span(b) == Some((61int, host.len() as int))
            &&& b.subrange(61, 61 + host.len() as int) == host
        }),
{
    lemma_client_hello_fields(host);
    let ch = client_hello(host);
    let n = host.len() as int;
    let c = ch + extra;
    let b = put_be16(c, 50, x);
    lemma_be16_roundtrip(x);
    assert(b.len() == 61 + n + extra.len());
    assert forall|i: int| 0 <= i < 61 + n && i != 50 && i != 51 implies #[trigger] b[i] == ch[i] by {}
    assert(be16_at(b, 50) == x);
    assert(be16_at(b, 44) == be16_at(ch, 44));
    assert(be16_at(b, 52) == be16_at(ch, 52));
    assert(be16_at(b, 54) == be16_at(ch, 54));
    assert(be16_at(b, 59) == be16_at(ch, 59));
    let end = if 52 + x < b.len() { 52 + x } else { b.len() as int };
    assert(hello_extensions(b) == Some((52int, end)));
    assert(sni_span_from(b, 52, end) == Some((61int, n)));
    assert(b.subrange(61, 61 + n) =~= ch.subrange(61, 61 + n));
}

} // verus!
