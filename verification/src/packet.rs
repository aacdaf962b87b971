//! Just enough IPv4/IPv6/TCP parsing to find a TLS ClientHello and the server
//! name inside it. Read-only inspection over a borrowed buffer; the strategy
//! module does the edits. Mole only ever needs to reach the SNI and the TCP
//! payload boundary, not a full packet decoder.

use vstd::prelude::*;

use crate::text::{lossy_string, lossy_text};

verus! {

/// The big-endian 16-bit value at `b[i]`, `b[i + 1]`.
pub open spec fn be16_at(b: Seq<u8>, i: int) -> int {
    b[i] as int * 256 + b[i + 1] as int
}

/// Where the TCP header starts in an IPv4 packet, if it is a TCP packet long
/// enough to hold the IP header and a minimal TCP header.
pub open spec fn v4_tcp_offset(p: Seq<u8>) -> Option<int> {
    if p.len() < 20 {
        None
    } else {
        let ihl = (p[0] % 16) as int * 4;
        if ihl < 20 || p.len() < ihl + 20 {
            None
        } else if p[9] != 6 {
            None
        } else {
            Some(ihl)
        }
    }
}

/// Walk IPv6 extension headers from `off`, where a header of type `next`
/// starts, to the TCP header. Hop-by-hop (0), routing (43) and destination
/// options (60) give their length in 8-byte units not counting the first 8; a
/// fragment header (44) is 8 bytes. Each step must leave room for a TCP header.
pub open spec fn v6_walk(p: Seq<u8>, next: u8, off: int) -> Option<int>
    decreases p.len() - off,
{
    if next == 6 {
        Some(off)
    } else if next == 0 || next == 43 || next == 60 {
        if off < 0 || off + 2 > p.len() {
            None
        } else {
            let off2 = off + (p[off + 1] as int + 1) * 8;
            if off2 + 20 > p.len() {
                None
            } else {
                v6_walk(p, p[off], off2)
            }
        }
    } else if next == 44 {
        if off < 0 || off + 8 > p.len() {
            None
        } else {
            let off2 = off + 8;
            if off2 + 20 > p.len() {
                None
            } else {
                v6_walk(p, p[off], off2)
            }
        }
    } else {
        None
    }
}

/// Where the TCP header starts in an IPv6 packet, if its header chain leads to
/// TCP with room for a minimal TCP header.
pub open spec fn v6_tcp_offset(p: Seq<u8>) -> Option<int> {
    if p.len() < 40 {
        None
    } else {
        match v6_walk(p, p[6], 40) {
            Some(off) => if off + 20 <= p.len() {
                Some(off)
            } else {
                None
            },
            None => None,
        }
    }
}

/// The IP version nibble of the first byte.
pub open spec fn ip_version(p: Seq<u8>) -> u8 {
    p[0] / 16
}

/// Where the TCP header starts, for an IPv4 or IPv6 packet carrying TCP.
pub open spec fn tcp_offset_of(p: Seq<u8>) -> Option<int> {
    if p.len() == 0 {
        None
    } else if ip_version(p) == 4 {
        v4_tcp_offset(p)
    } else if ip_version(p) == 6 {
        v6_tcp_offset(p)
    } else {
        None
    }
}

/// The TCP header length (data offset) of the header starting at `t`.
pub open spec fn tcp_header_len(p: Seq<u8>, t: int) -> int {
    (p[t + 12] / 16) as int * 4
}

/// `p` is an IPv4/TCP or IPv6/TCP packet whose TCP header fits.
pub open spec fn parses(p: Seq<u8>) -> bool {
    match tcp_offset_of(p) {
        Some(t) => tcp_header_len(p, t) >= 20 && p.len() >= t + tcp_header_len(p, t),
        None => false,
    }
}

/// The source address bytes as stored: four address bytes then zeros for
/// IPv4, sixteen for IPv6.
pub open spec fn stored_src(p: Seq<u8>) -> Seq<u8> {
    if ip_version(p) == 4 {
        p.subrange(12, 16) + Seq::new(12, |i: int| 0u8)
    } else {
        p.subrange(8, 24)
    }
}

/// The destination address bytes as stored, like [`stored_src`].
pub open spec fn stored_dst(p: Seq<u8>) -> Seq<u8> {
    if ip_version(p) == 4 {
        p.subrange(16, 20) + Seq::new(12, |i: int| 0u8)
    } else {
        p.subrange(24, 40)
    }
}

/// A parsed view of an IPv4- or IPv6-over-TCP packet, with byte offsets into
/// the captured buffer so the filter engine can splice without re-parsing. The
/// IP addresses are stored full width; only the first 4 (IPv4) or 16 (IPv6)
/// bytes are meaningful.
pub struct TcpView {
    /// 4 or 6.
    pub version: u8,
    /// Source address; IPv4 uses the first four bytes.
    pub src: [u8; 16],
    /// Destination address; IPv4 uses the first four bytes.
    pub dst: [u8; 16],
    /// How many address bytes are meaningful: 4 or 16.
    pub addr_len: usize,
    pub src_port: u16,
    pub dst_port: u16,
    /// Where the IP header(s) end and the TCP header begins.
    pub tcp_offset: usize,
    /// Where the TCP payload begins.
    pub payload_offset: usize,
    pub syn: bool,
    pub ack: bool,
}

impl TcpView {
    /// Every field of this view is what packet `p` holds.
    #[verifier::opaque]
    pub open spec fn describes(&self, p: Seq<u8>) -> bool {
        &&& parses(p)
        &&& tcp_offset_of(p) == Some(self.tcp_offset as int)
        &&& self.payload_offset == self.tcp_offset + tcp_header_len(p, self.tcp_offset as int)
        &&& self.version == ip_version(p)
        &&& self.addr_len == if self.version == 4 {
            4usize
        } else {
            16usize
        }
        &&& self.src@ == stored_src(p)
        &&& self.dst@ == stored_dst(p)
        &&& self.src_port == be16_at(p, self.tcp_offset as int)
        &&& self.dst_port == be16_at(p, self.tcp_offset + 2)
        &&& self.syn == (p[self.tcp_offset + 13] & 0x02 != 0)
        &&& self.ack == (p[self.tcp_offset + 13] & 0x10 != 0)
    }

    /// Parse an IPv4/TCP or IPv6/TCP packet. Returns `None` for anything else
    /// or anything too short to trust.
    pub fn parse(pkt: &[u8]) -> (r: Option<TcpView>)
        requires
            pkt@.len() <= isize::MAX,
        ensures
            r is Some <==> parses(pkt@),
            r matches Some(v) ==> v.describes(pkt@),
    {
        if pkt.len() == 0 {
            return None;
        }
        let b0 = pkt[0];
        let version = b0 >> 4;
        assert(version == b0 / 16) by (bit_vector)
            requires
                version == b0 >> 4,
        ;
        if version == 4 {
            Self::parse_v4(pkt)
        } else if version == 6 {
            Self::parse_v6(pkt)
        } else {
            None
        }
    }

    fn parse_v4(pkt: &[u8]) -> (r: Option<TcpView>)
        requires
            pkt@.len() > 0,
            ip_version(pkt@) == 4,
            pkt@.len() <= isize::MAX,
        ensures
            r is Some <==> parses(pkt@),
            r matches Some(v) ==> v.describes(pkt@),
    {
        if pkt.len() < 20 {
            return None;
        }
        let b0 = pkt[0];
        let nib = b0 & 0x0F;
        assert(nib == b0 % 16) by (bit_vector)
            requires
                nib == b0 & 0x0F,
        ;
        let ihl = nib as usize * 4;
        if ihl < 20 || pkt.len() < ihl + 20 {
            return None;
        }
        if pkt[9] != 6 {
            return None;
        }
        let mut src = [0u8; 16];
        let mut dst = [0u8; 16];
        src[0] = pkt[12];
        src[1] = pkt[13];
        src[2] = pkt[14];
        src[3] = pkt[15];
        dst[0] = pkt[16];
        dst[1] = pkt[17];
        dst[2] = pkt[18];
        dst[3] = pkt[19];
        assert(src@ =~= stored_src(pkt@));
        assert(dst@ =~= stored_dst(pkt@));
        Self::finish(pkt, 4, src, dst, 4, ihl)
    }

    fn parse_v6(pkt: &[u8]) -> (r: Option<TcpView>)
        requires
            pkt@.len() > 0,
            ip_version(pkt@) == 6,
            pkt@.len() <= isize::MAX,
        ensures
            r is Some <==> parses(pkt@),
            r matches Some(v) ==> v.describes(pkt@),
    {
        if pkt.len() < 40 {
            return None;
        }
        let len = pkt.len();
        let mut next = pkt[6];
        let mut off: usize = 40;
        while next != 6
            invariant
                len == pkt@.len(),
                40 <= len <= isize::MAX,
                40 <= off <= len,
                ip_version(pkt@) == 6,
                v6_walk(pkt@, next, off as int) == v6_walk(pkt@, pkt@[6], 40),
            decreases len - off,
        {
            if next == 0 || next == 43 || next == 60 {
                if off + 2 > len {
                    return None;
                }
                let n2 = pkt[off];
                off = off + (pkt[off + 1] as usize + 1) * 8;
                next = n2;
            } else if next == 44 {
                if off + 8 > len {
                    return None;
                }
                let n2 = pkt[off];
                off = off + 8;
                next = n2;
            } else {
                return None;
            }
            if off + 20 > len {
                return None;
            }
        }
        if off + 20 > len {
            return None;
        }
        let mut src = [0u8; 16];
        let mut dst = [0u8; 16];
        let mut i: usize = 0;
        while i < 16
            invariant
                len == pkt@.len(),
                len >= 40,
                i <= 16,
                forall|j: int| 0 <= j < i ==> src@[j] == pkt@[8 + j],
                forall|j: int| 0 <= j < i ==> dst@[j] == pkt@[24 + j],
            decreases 16 - i,
        {
            src[i] = pkt[8 + i];
            dst[i] = pkt[24 + i];
            i = i + 1;
        }
        assert(src@ =~= stored_src(pkt@));
        assert(dst@ =~= stored_dst(pkt@));
        Self::finish(pkt, 6, src, dst, 16, off)
    }

    fn finish(
        pkt: &[u8],
        version: u8,
        src: [u8; 16],
        dst: [u8; 16],
        addr_len: usize,
        tcp_offset: usize,
    ) -> (r: Option<TcpView>)
        requires
            pkt@.len() > 0,
            version == ip_version(pkt@),
            tcp_offset_of(pkt@) == Some(tcp_offset as int),
            tcp_offset + 20 <= pkt@.len(),
            pkt@.len() <= isize::MAX,
            addr_len == if version == 4 {
                4usize
            } else {
                16usize
            },
            src@ == stored_src(pkt@),
            dst@ == stored_dst(pkt@),
        ensures
            r is Some <==> parses(pkt@),
            r matches Some(v) ==> v.describes(pkt@),
    {
        reveal(TcpView::describes);
        let t = tcp_offset;
        let src_port = (pkt[t] as u16) * 256 + pkt[t + 1] as u16;
        let dst_port = (pkt[t + 2] as u16) * 256 + pkt[t + 3] as u16;
        let b12 = pkt[t + 12];
        let hi = b12 >> 4;
        assert(hi == b12 / 16) by (bit_vector)
            requires
                hi == b12 >> 4,
        ;
        let data_offset = hi as usize * 4;
        if data_offset < 20 || pkt.len() < t + data_offset {
            return None;
        }
        let flags = pkt[t + 13];
        Some(
            TcpView {
                version,
                src,
                dst,
                addr_len,
                src_port,
                dst_port,
                tcp_offset: t,
                payload_offset: t + data_offset,
                syn: flags & 0x02 != 0,
                ack: flags & 0x10 != 0,
            },
        )
    }

    /// The TCP payload of the packet this view was parsed from.
    pub fn payload<'a>(&self, pkt: &'a [u8]) -> (r: &'a [u8])
        requires
            self.payload_offset <= pkt@.len(),
        ensures
            r@ == pkt@.subrange(self.payload_offset as int, pkt@.len() as int),
    {
        vstd::slice::slice_subrange(pkt, self.payload_offset, pkt.len())
    }

    /// The source IP address bytes (4 for IPv4, 16 for IPv6).
    pub fn src_bytes(&self) -> (r: &[u8])
        requires
            self.addr_len <= 16,
        ensures
            r@ == self.src@.subrange(0, self.addr_len as int),
    {
        vstd::slice::slice_subrange(self.src.as_slice(), 0, self.addr_len)
    }

    /// The destination IP address bytes (4 for IPv4, 16 for IPv6).
    pub fn dst_bytes(&self) -> (r: &[u8])
        requires
            self.addr_len <= 16,
        ensures
            r@ == self.dst@.subrange(0, self.addr_len as int),
    {
        vstd::slice::slice_subrange(self.dst.as_slice(), 0, self.addr_len)
    }
}

/// Where the extensions of a TLS ClientHello record start, and where the
/// extensions block ends (clipped to the bytes present), if the record header,
/// handshake header, session id, cipher suites and compression methods all fit.
pub open spec fn hello_extensions(b: Seq<u8>) -> Option<(int, int)> {
    if b.len() < 5 || b[0] != 22 {
        None
    } else if b.len() < 9 || b[5] != 1 {
        None
    } else if b.len() < 44 {
        None
    } else {
        let p1 = 44 + b[43] as int;
        if b.len() < p1 + 2 {
            None
        } else {
            let p2 = p1 + 2 + be16_at(b, p1);
            if b.len() < p2 + 1 {
                None
            } else {
                let p3 = p2 + 1 + b[p2] as int;
                if b.len() < p3 + 2 {
                    None
                } else {
                    let start = p3 + 2;
                    let end = start + be16_at(b, p3);
                    Some((start, if end < b.len() { end } else { b.len() as int }))
                }
            }
        }
    }
}

/// Scan the extensions from `p` up to `end` for server_name (type 0) and give
/// the host name's start and length. An extension running past the bytes
/// present, or a server_name too short or naming past the end, ends the scan
/// with nothing.
pub open spec fn sni_span_from(b: Seq<u8>, p: int, end: int) -> Option<(int, int)>
    decreases end - p,
{
    if p < 0 || p + 4 > end {
        None
    } else {
        let ext_type = be16_at(b, p);
        let ext_len = be16_at(b, p + 2);
        let q = p + 4;
        if q + ext_len > b.len() {
            None
        } else if ext_type == 0 {
            if ext_len < 5 {
                None
            } else {
                let name_len = be16_at(b, q + 3);
                let start = q + 5;
                if start + name_len > b.len() {
                    None
                } else {
                    Some((start, name_len))
                }
            }
        } else if q + ext_len > end {
            None
        } else {
            sni_span_from(b, q + ext_len, end)
        }
    }
}

/// The host name's start and length inside a TLS ClientHello, if there is one.
pub open spec fn sni_span(b: Seq<u8>) -> Option<(int, int)> {
    match hello_extensions(b) {
        Some((p, end)) => sni_span_from(b, p, end),
        None => None,
    }
}

proof fn lemma_v6_walk_advances(p: Seq<u8>, next: u8, off: int)
    ensures
        v6_walk(p, next, off) matches Some(o) ==> o >= off,
    decreases p.len() - off,
{
    if next != 6 && (next == 0 || next == 43 || next == 60) && off >= 0 && off + 2 <= p.len() {
        let off2 = off + (p[off + 1] as int + 1) * 8;
        if off2 + 20 <= p.len() {
            lemma_v6_walk_advances(p, p[off], off2);
        }
    } else if next == 44 && off >= 0 && off + 8 <= p.len() {
        if off + 28 <= p.len() {
            lemma_v6_walk_advances(p, p[off], off + 8);
        }
    }
}

/// Two views of one packet agree on where its TCP header and payload begin.
pub proof fn lemma_describes_unique(a: TcpView, b: TcpView, p: Seq<u8>)
    requires
        a.describes(p),
        b.describes(p),
    ensures
        a.tcp_offset == b.tcp_offset,
        a.payload_offset == b.payload_offset,
{
    reveal(TcpView::describes);
}

/// A view reads the packet's own header fields: for IPv4 the source address
/// from bytes 12..16 and the destination from bytes 16..20, the TCP header
/// right after the IHL-sized IP header; for IPv6 the source from bytes 8..24
/// and the destination from bytes 24..40; and the ports from the first four
/// bytes of the TCP header, source first.
pub proof fn law_view_reads_the_header(v: TcpView, p: Seq<u8>)
    requires
        v.describes(p),
    ensures
        v.version == 4 ==> {
            &&& v.src@.subrange(0, 4) == p.subrange(12, 16)
            &&& v.dst@.subrange(0, 4) == p.subrange(16, 20)
            &&& v.tcp_offset == (p[0] % 16) as int * 4
            &&& v.addr_len == 4
        },
        v.version == 6 ==> {
            &&& v.src@ == p.subrange(8, 24)
            &&& v.dst@ == p.subrange(24, 40)
            &&& v.addr_len == 16
        },
        v.src_port == p[v.tcp_offset as int] as int * 256 + p[v.tcp_offset + 1] as int,
        v.dst_port == p[v.tcp_offset + 2] as int * 256 + p[v.tcp_offset + 3] as int,
{
    reveal(TcpView::describes);
    if v.version == 4 {
        assert(v.src@.subrange(0, 4) =~= p.subrange(12, 16));
        assert(v.dst@.subrange(0, 4) =~= p.subrange(16, 20));
    }
}

/// What a view that describes `p` says about where its parts lie: the TCP
/// header starts after at least 20 bytes of IP header (at most 60 for IPv4, at
/// least 40 for IPv6) and is at least 20 bytes long, and the payload starts
/// within the packet.
pub proof fn lemma_describes_bounds(v: TcpView, p: Seq<u8>)
    requires
        v.describes(p),
    ensures
        v.version == 4 || v.version == 6,
        v.version == 4 ==> 20 <= v.tcp_offset <= 60,
        v.version == 6 ==> 40 <= v.tcp_offset,
        v.tcp_offset + 20 <= v.payload_offset <= p.len(),
        v.addr_len <= 16,
{
    reveal(TcpView::describes);
    if v.version == 6 {
        lemma_v6_walk_advances(p, p[6], 40);
    }
}

proof fn lemma_sni_span_from_bounds(b: Seq<u8>, p: int, end: int)
    ensures
        sni_span_from(b, p, end) matches Some((s, n)) ==> 0 <= s && 0 <= n && s + n <= b.len(),
    decreases end - p,
{
    if p >= 0 && p + 4 <= end {
        let ext_type = be16_at(b, p);
        let ext_len = be16_at(b, p + 2);
        let q = p + 4;
        if q + ext_len <= b.len() && ext_type != 0 && q + ext_len <= end {
            lemma_sni_span_from_bounds(b, q + ext_len, end);
        }
    }
}

/// A host name found in a ClientHello lies within it.
pub proof fn lemma_sni_span_bounds(b: Seq<u8>)
    ensures
        sni_span(b) matches Some((s, n)) ==> 0 <= s && 0 <= n && s + n <= b.len(),
{
    if let Some((p, end)) = hello_extensions(b) {
        lemma_sni_span_from_bounds(b, p, end);
    }
}

/// If `payload` is a TLS ClientHello, return the SNI host name and the byte
/// offset of that name within `payload`. The offset is what the splitting
/// strategy needs: it cuts the segment so the host name straddles the boundary
/// and the filter cannot read it whole.
pub fn find_sni(payload: &[u8]) -> (r: Option<(String, usize)>)
    requires
        payload@.len() <= isize::MAX,
    ensures
        match sni_span(payload@) {
            Some((start, n)) => r matches Some((host, off)) && off == start && host@
                == lossy_text(payload@.subrange(start, start + n)),
            None => r is None,
        },
{
    let len = payload.len();
    if len < 5 || payload[0] != 22 {
        return None;
    }
    if len < 9 || payload[5] != 1 {
        return None;
    }
    let mut p: usize = 43;
    if len < p + 1 {
        return None;
    }
    let sid_len = payload[p] as usize;
    p = p + 1 + sid_len;
    if len < p + 2 {
        return None;
    }
    let cs_len = (payload[p] as usize) * 256 + payload[p + 1] as usize;
    p = p + 2 + cs_len;
    if len < p + 1 {
        return None;
    }
    let cm_len = payload[p] as usize;
    p = p + 1 + cm_len;
    if len < p + 2 {
        return None;
    }
    let ext_total = (payload[p] as usize) * 256 + payload[p + 1] as usize;
    p = p + 2;
    let ext_end = if p + ext_total < len {
        p + ext_total
    } else {
        len
    };
    assert(hello_extensions(payload@) == Some((p as int, ext_end as int)));
    while p + 4 <= ext_end
        invariant
            len == payload@.len(),
            len <= isize::MAX,
            ext_end <= len,
            p <= len,
            sni_span_from(payload@, p as int, ext_end as int) == sni_span(payload@),
        decreases len - p,
    {
        let ext_type = (payload[p] as usize) * 256 + payload[p + 1] as usize;
        let ext_len = (payload[p + 2] as usize) * 256 + payload[p + 3] as usize;
        p = p + 4;
        if p + ext_len > len {
            return None;
        }
        if ext_type == 0 {
            if ext_len < 5 {
                return None;
            }
            let name_len = (payload[p + 3] as usize) * 256 + payload[p + 4] as usize;
            let name_start = p + 5;
            if name_start + name_len > len {
                return None;
            }
            let name = vstd::slice::slice_subrange(payload, name_start, name_start + name_len);
            let host = lossy_string(name);
            return Some((host, name_start));
        }
        p = p + ext_len;
    }
    None
}

/// True if `payload` looks like a TLS ClientHello: a handshake record (type
/// 22) whose handshake message is type 1.
pub fn is_client_hello(payload: &[u8]) -> (r: bool)
    ensures
        r == (payload@.len() >= 6 && payload@[0] == 22 && payload@[5] == 1),
{
    payload.len() >= 6 && payload[0] == 22 && payload[5] == 1
}

} // verus!
