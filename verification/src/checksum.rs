//! IPv4 and TCP checksums.
//!
//! The send path recomputes checksums for ordinary edited packets. One strategy
//! needs a packet the server rejects while the filter still parses it: a decoy
//! with a deliberately wrong TCP checksum. For that the correct value is computed
//! here and then broken, so the break is exact rather than a guess. These are the
//! standard 16-bit one's complement sums over the IP header and the TCP
//! pseudo-header.

use vstd::prelude::*;

verus! {

/// The big-endian 16-bit value of two bytes.
pub open spec fn be16(hi: u8, lo: u8) -> nat {
    hi as nat * 256 + lo as nat
}

/// Sum of the first `n` big-endian 16-bit words of `b`.
pub open spec fn pair_sum(b: Seq<u8>, n: nat) -> nat
    decreases n,
{
    if n == 0 {
        0
    } else {
        pair_sum(b, (n - 1) as nat) + be16(b[2 * n - 2], b[2 * n - 1])
    }
}

/// Sum of the big-endian 16-bit words of `b`; an odd final byte counts as the
/// high half of a word whose low half is zero.
pub open spec fn word_sum(b: Seq<u8>) -> nat {
    pair_sum(b, b.len() / 2) + if b.len() % 2 == 1 {
        b[b.len() - 1] as nat * 256
    } else {
        0
    }
}

/// End-around carry: add the bits above 16 back into the low 16 bits until
/// nothing is left above them.
pub open spec fn fold16(s: nat) -> nat
    decreases s,
{
    if s < 0x10000 {
        s
    } else {
        fold16(s % 0x10000 + s / 0x10000)
    }
}

/// The one's complement checksum of `b`, starting the sum at `initial`.
#[verifier::opaque]
pub open spec fn ones_complement(initial: nat, b: Seq<u8>) -> int {
    0xFFFF - fold16(initial + word_sum(b))
}

/// `b` with the two bytes at `at` set to zero (a checksum field treated as zero).
pub open spec fn zero_field(b: Seq<u8>, at: int) -> Seq<u8> {
    b.update(at, 0u8).update(at + 1, 0u8)
}

/// The IPv4 TCP pseudo-header sum: both addresses, the protocol number (6) and
/// the TCP length.
pub open spec fn pseudo_v4(src: Seq<u8>, dst: Seq<u8>, tcp_len: nat) -> nat {
    be16(src[0], src[1]) + be16(src[2], src[3]) + be16(dst[0], dst[1]) + be16(dst[2], dst[3])
        + 6 + tcp_len
}

/// The IPv6 TCP pseudo-header sum: both 16-byte addresses, the upper-layer
/// length and the next-header value (6).
pub open spec fn pseudo_v6(src: Seq<u8>, dst: Seq<u8>, tcp_len: nat) -> nat {
    pair_sum(src, 8) + pair_sum(dst, 8) + tcp_len + 6
}

/// The checksum of an IPv4 header, its checksum field treated as zero.
pub open spec fn spec_ipv4_checksum(h: Seq<u8>) -> int {
    ones_complement(0, zero_field(h, 10))
}

/// The TCP checksum over the IPv4 pseudo-header and `tcp`, its checksum field
/// treated as zero.
pub open spec fn spec_tcp_checksum(src: Seq<u8>, dst: Seq<u8>, tcp: Seq<u8>) -> int {
    ones_complement(pseudo_v4(src, dst, tcp.len()), zero_field(tcp, 16))
}

/// The TCP checksum over the IPv6 pseudo-header and `tcp`, its checksum field
/// treated as zero.
pub open spec fn spec_tcp_checksum_v6(src: Seq<u8>, dst: Seq<u8>, tcp: Seq<u8>) -> int {
    ones_complement(pseudo_v6(src, dst, tcp.len()), zero_field(tcp, 16))
}

proof fn lemma_pair_sum_mono(b: Seq<u8>, k: nat, n: nat)
    requires
        k <= n,
    ensures
        pair_sum(b, k) <= pair_sum(b, n),
    decreases n,
{
    if k < n {
        lemma_pair_sum_mono(b, k, (n - 1) as nat);
    }
}

/// Each word is at most 0xFFFF.
pub proof fn lemma_pair_sum_bound(b: Seq<u8>, n: nat)
    ensures
        pair_sum(b, n) <= 65535 * n,
    decreases n,
{
    if n > 0 {
        lemma_pair_sum_bound(b, (n - 1) as nat);
        assert(be16(b[2 * n - 2], b[2 * n - 1]) <= 65535);
    }
}

/// Each word is at most 0xFFFF, so the word sum is bounded by the length.
pub proof fn lemma_word_sum_bound(b: Seq<u8>)
    ensures
        word_sum(b) <= 65535 * (b.len() / 2) + 65280,
{
    lemma_pair_sum_bound(b, b.len() / 2);
}

proof fn lemma_fold16_small(s: nat)
    ensures
        fold16(s) < 0x10000,
    decreases s,
{
    if s >= 0x10000 {
        lemma_fold16_small(s % 0x10000 + s / 0x10000);
    }
}

proof fn lemma_pair_sum_update(b: Seq<u8>, at: int, x: u8, y: u8, n: nat)
    requires
        at % 2 == 0,
        0 <= at,
        at + 1 < b.len(),
        2 * n <= b.len(),
    ensures
        pair_sum(b.update(at, x).update(at + 1, y), n) + (if at < 2 * n {
            be16(b[at], b[at + 1])
        } else {
            0
        }) == pair_sum(b, n) + (if at < 2 * n {
            be16(x, y)
        } else {
            0
        }),
    decreases n,
{
    if n > 0 {
        lemma_pair_sum_update(b, at, x, y, (n - 1) as nat);
    }
}

proof fn lemma_word_sum_update(b: Seq<u8>, at: int, x: u8, y: u8)
    requires
        at % 2 == 0,
        0 <= at,
        at + 1 < b.len(),
    ensures
        word_sum(b.update(at, x).update(at + 1, y)) + be16(b[at], b[at + 1]) == word_sum(b)
            + be16(x, y),
{
    lemma_pair_sum_update(b, at, x, y, b.len() / 2);
}

proof fn lemma_fold16_mod(s: nat)
    ensures
        fold16(s) % 65535 == s % 65535,
        s > 0 ==> fold16(s) > 0,
        fold16(s) < 0x10000,
    decreases s,
{
    if s >= 0x10000 {
        let q = s / 0x10000;
        let t = s % 0x10000 + q;
        vstd::arithmetic::div_mod::lemma_fundamental_div_mod(s as int, 0x10000);
        assert(s == t + 65535 * q);
        vstd::arithmetic::div_mod::lemma_mod_multiples_vanish(q as int, t as int, 65535);
        lemma_fold16_mod(t);
    }
}

/// A checksum is a 16-bit value.
pub proof fn lemma_ones_complement_range(initial: nat, b: Seq<u8>)
    ensures
        0 <= ones_complement(initial, b) <= 0xFFFF,
{
    reveal(ones_complement);
    lemma_fold16_small(initial + word_sum(b));
}

/// Filling a checksum field with the one's complement checksum computed over
/// the data with that field zeroed: the data then re-checksums to the same
/// value, and the sum over all of it, field included, verifies to zero.
proof fn lemma_filled_checksum_verifies(initial: nat, b: Seq<u8>, at: int)
    requires
        at % 2 == 0,
        0 <= at,
        at + 1 < b.len(),
    ensures
        ({
            let c = ones_complement(initial, zero_field(b, at));
            let filled = b.update(at, (c / 256) as u8).update(at + 1, (c % 256) as u8);
            &&& 0 <= c <= 0xFFFF
            &&& ones_complement(initial, zero_field(filled, at)) == c
            &&& ones_complement(initial, filled) == 0
        }),
{
    reveal(ones_complement);
    let z = zero_field(b, at);
    let s0 = initial + word_sum(z);
    let f = fold16(s0);
    lemma_fold16_mod(s0);
    let c = ones_complement(initial, z);
    assert(c == 0xFFFF - f);
    let hi = (c / 256) as u8;
    let lo = (c % 256) as u8;
    let filled = b.update(at, hi).update(at + 1, lo);
    assert(zero_field(filled, at) =~= z);
    assert(filled =~= z.update(at, hi).update(at + 1, lo));
    lemma_word_sum_update(z, at, hi, lo);
    assert(be16(hi, lo) == c);
    let t = s0 + c;
    assert(initial + word_sum(filled) == t);
    // t is a positive multiple of 65535, so it folds to 0xFFFF.
    vstd::arithmetic::div_mod::lemma_fundamental_div_mod(s0 as int, 65535);
    vstd::arithmetic::div_mod::lemma_fundamental_div_mod(f as int, 65535);
    let k = s0 as int / 65535 - f as int / 65535 + 1;
    assert(t == 65535 * k);
    vstd::arithmetic::div_mod::lemma_mod_multiples_basic(k, 65535);
    assert((k * 65535) == 65535 * k) by (nonlinear_arith);
    assert(t > 0);
    lemma_fold16_mod(t as nat);
    let ft = fold16(t as nat);
    vstd::arithmetic::div_mod::lemma_fundamental_div_mod(ft as int, 65535);
    assert(ft == 65535) by (nonlinear_arith)
        requires
            ft == 65535 * (ft / 65535) + ft % 65535,
            ft % 65535 == 0,
            0 < ft < 0x10000,
    ;
}

/// A header that carries its own correct checksum re-checksums to that same
/// value, and a receiver's verification (the one's complement sum over the
/// whole header, checksum included) comes out zero.
pub proof fn law_ipv4_checksum_verifies(h: Seq<u8>)
    requires
        12 <= h.len(),
    ensures
        ({
            let c = spec_ipv4_checksum(h);
            let filled = h.update(10, (c / 256) as u8).update(11, (c % 256) as u8);
            &&& 0 <= c <= 0xFFFF
            &&& spec_ipv4_checksum(filled) == c
            &&& ones_complement(0, filled) == 0
        }),
{
    lemma_filled_checksum_verifies(0, h, 10);
}

/// A TCP segment that carries its own correct checksum re-checksums to that
/// same value, and the receiver's verification (the one's complement sum over
/// the pseudo-header and the whole segment, checksum included) comes out
/// zero; over IPv4 and over IPv6 alike.
pub proof fn law_tcp_checksum_verifies(src: Seq<u8>, dst: Seq<u8>, tcp: Seq<u8>)
    requires
        18 <= tcp.len(),
    ensures
        ({
            let c = spec_tcp_checksum(src, dst, tcp);
            let filled = tcp.update(16, (c / 256) as u8).update(17, (c % 256) as u8);
            &&& 0 <= c <= 0xFFFF
            &&& spec_tcp_checksum(src, dst, filled) == c
            &&& ones_complement(pseudo_v4(src, dst, tcp.len()), filled) == 0
        }),
        ({
            let c = spec_tcp_checksum_v6(src, dst, tcp);
            let filled = tcp.update(16, (c / 256) as u8).update(17, (c % 256) as u8);
            &&& 0 <= c <= 0xFFFF
            &&& spec_tcp_checksum_v6(src, dst, filled) == c
            &&& ones_complement(pseudo_v6(src, dst, tcp.len()), filled) == 0
        }),
{
    lemma_filled_checksum_verifies(pseudo_v4(src, dst, tcp.len()), tcp, 16);
    lemma_filled_checksum_verifies(pseudo_v6(src, dst, tcp.len()), tcp, 16);
}

/// What already sits in a TCP segment's checksum field never changes the
/// computed checksum: two segments that differ only there get the same value.
pub proof fn law_tcp_checksum_ignores_its_field(src: Seq<u8>, dst: Seq<u8>, a: Seq<u8>, b: Seq<u8>)
    requires
        a.len() == b.len(),
        a.len() >= 18,
        forall|i: int| 0 <= i < a.len() && i != 16 && i != 17 ==> a[i] == b[i],
    ensures
        spec_tcp_checksum(src, dst, a) == spec_tcp_checksum(src, dst, b),
        spec_tcp_checksum_v6(src, dst, a) == spec_tcp_checksum_v6(src, dst, b),
{
    assert(zero_field(a, 16) =~= zero_field(b, 16));
}

/// The one's complement sum over `bytes`, starting from `initial`: 16-bit
/// big-endian words summed with their carries folded back in, then inverted.
pub fn ones_complement_sum(bytes: &[u8], initial: u32) -> (r: u16)
    requires
        initial + word_sum(bytes@) <= u32::MAX,
    ensures
        r == ones_complement(initial as nat, bytes@),
{
    reveal(ones_complement);
    let ghost total: nat = (initial + word_sum(bytes@)) as nat;
    let mut sum: u32 = initial;
    let mut i: usize = 0;
    while i + 1 < bytes.len()
        invariant
            i % 2 == 0,
            i <= bytes@.len(),
            sum == initial + pair_sum(bytes@, (i / 2) as nat),
            total == initial + word_sum(bytes@),
            total <= u32::MAX,
        decreases bytes@.len() - i,
    {
        proof {
            lemma_pair_sum_mono(bytes@, (i / 2 + 1) as nat, (bytes@.len() / 2) as nat);
            assert((i + 2) / 2 == i / 2 + 1);
        }
        sum = sum + (bytes[i] as u32) * 256 + bytes[i + 1] as u32;
        i = i + 2;
    }
    if i < bytes.len() {
        sum = sum + (bytes[i] as u32) * 256;
    }
    assert(sum == total);
    while sum >> 16 != 0
        invariant
            fold16(sum as nat) == fold16(total),
        decreases sum,
    {
        let lo = sum & 0xFFFF;
        let hi = sum >> 16;
        assert(lo == sum % 0x10000 && hi == sum / 0x10000 && hi > 0) by (bit_vector)
            requires
                lo == sum & 0xFFFF,
                hi == sum >> 16,
                sum >> 16 != 0,
        ;
        sum = lo + hi;
    }
    assert(sum < 0x10000) by (bit_vector)
        requires
            sum >> 16 == 0,
    ;
    let s16 = sum as u16;
    let r = !s16;
    assert(r == 0xFFFF - s16) by (bit_vector)
        requires
            r == !s16,
    ;
    r
}

/// The checksum of an IPv4 header (`ihl` bytes), computed with the checksum
/// field (bytes 10 and 11) treated as zero.
pub fn ipv4_checksum(ip_header: &[u8]) -> (r: u16)
    requires
        12 <= ip_header@.len(),
        word_sum(zero_field(ip_header@, 10)) <= u32::MAX,
    ensures
        r == spec_ipv4_checksum(ip_header@),
{
    let mut buf = vstd::slice::slice_to_vec(ip_header);
    buf[10] = 0;
    buf[11] = 0;
    assert(buf@ =~= zero_field(ip_header@, 10));
    ones_complement_sum(buf.as_slice(), 0)
}

/// TCP checksum over the IPv4 pseudo-header and the segment. `src` and `dst`
/// are the IPv4 addresses; `tcp` is the whole TCP header and payload, its own
/// checksum field (bytes 16 and 17) treated as zero.
pub fn tcp_checksum(src: [u8; 4], dst: [u8; 4], tcp: &[u8]) -> (r: u16)
    requires
        18 <= tcp@.len(),
        pseudo_v4(src@, dst@, tcp@.len()) + word_sum(zero_field(tcp@, 16)) <= u32::MAX,
    ensures
        r == spec_tcp_checksum(src@, dst@, tcp@),
{
    let mut pseudo: u32 = 0;
    pseudo = pseudo + (src[0] as u32) * 256 + src[1] as u32;
    pseudo = pseudo + (src[2] as u32) * 256 + src[3] as u32;
    pseudo = pseudo + (dst[0] as u32) * 256 + dst[1] as u32;
    pseudo = pseudo + (dst[2] as u32) * 256 + dst[3] as u32;
    pseudo = pseudo + 6;
    pseudo = pseudo + tcp.len() as u32;
    let mut buf = vstd::slice::slice_to_vec(tcp);
    buf[16] = 0;
    buf[17] = 0;
    assert(buf@ =~= zero_field(tcp@, 16));
    ones_complement_sum(buf.as_slice(), pseudo)
}

/// TCP checksum over the IPv6 pseudo-header (both 16-byte addresses, the
/// segment length and next header 6) and the segment, its checksum field
/// treated as zero.
pub fn tcp_checksum_v6(src: &[u8; 16], dst: &[u8; 16], tcp: &[u8]) -> (r: u16)
    requires
        18 <= tcp@.len(),
        pseudo_v6(src@, dst@, tcp@.len()) + word_sum(zero_field(tcp@, 16)) <= u32::MAX,
    ensures
        r == spec_tcp_checksum_v6(src@, dst@, tcp@),
{
    let mut pseudo: u32 = 0;
    let mut k: usize = 0;
    while k < 8
        invariant
            k <= 8,
            pseudo == pair_sum(src@, k as nat) + pair_sum(dst@, k as nat),
            pseudo <= 131070 * k,
        decreases 8 - k,
    {
        assert(131070 * k <= 131070 * 7) by (nonlinear_arith)
            requires
                k < 8,
        ;
        pseudo = pseudo + (src[2 * k] as u32) * 256 + src[2 * k + 1] as u32;
        pseudo = pseudo + (dst[2 * k] as u32) * 256 + dst[2 * k + 1] as u32;
        k = k + 1;
    }
    pseudo = pseudo + tcp.len() as u32;
    pseudo = pseudo + 6;
    let mut buf = vstd::slice::slice_to_vec(tcp);
    buf[16] = 0;
    buf[17] = 0;
    assert(buf@ =~= zero_field(tcp@, 16));
    ones_complement_sum(buf.as_slice(), pseudo)
}

} // verus!
