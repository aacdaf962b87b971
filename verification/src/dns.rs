//! DNS over HTTPS: the wire format.
//!
//! Part of a block is DNS hijacking: the operator answers a blocked name with a
//! wrong or empty address over plain UDP/53. DoH puts the query inside TLS to a
//! resolver of the user's choice, so the answer can't be tampered with. This
//! module encodes the query, builds the HTTP request, takes the HTTP response
//! apart and reads the A records out of the DNS answer. The TLS connection and
//! the socket live outside this crate.

use vstd::prelude::*;
use vstd::string::{StringExecFns, StringSliceAdditionalSpecFns};

use crate::text::{
    decimal, lossy_string, parse_hex, parse_hex_usize, push_decimal, trim_white_space, trimmed,
    lossy_text,
};

verus! {

/// The pieces of `h` between dots, as `str::split('.')` gives them: always at
/// least one, possibly empty.
pub open spec fn split_dots(h: Seq<u8>) -> Seq<Seq<u8>>
    decreases h.len(),
{
    if h.len() == 0 {
        seq![Seq::<u8>::empty()]
    } else {
        let rest = split_dots(h.drop_last());
        if h.last() == 0x2Eu8 {
            rest.push(Seq::<u8>::empty())
        } else {
            rest.update(rest.len() - 1, rest.last().push(h.last()))
        }
    }
}

/// One label on the wire: its length byte (truncated to 8 bits) and its
/// bytes; an empty piece is left out.
pub open spec fn label_bytes(l: Seq<u8>) -> Seq<u8> {
    if l.len() == 0 {
        Seq::<u8>::empty()
    } else {
        seq![(l.len() % 256) as u8] + l
    }
}

/// The labels of a name, in order, each as [`label_bytes`].
pub open spec fn encode_labels(pieces: Seq<Seq<u8>>) -> Seq<u8>
    decreases pieces.len(),
{
    if pieces.len() == 0 {
        Seq::<u8>::empty()
    } else {
        encode_labels(pieces.drop_last()) + label_bytes(pieces.last())
    }
}

/// A DNS query message for `host` (its UTF-8 bytes) and record type `qtype`:
/// ID 0, recursion desired, one question, the labels, the root, the type and
/// class IN.
pub open spec fn query_message(host: Seq<u8>, qtype: u16) -> Seq<u8> {
    seq![0u8, 0, 1, 0, 0, 1, 0, 0, 0, 0, 0, 0] + encode_labels(split_dots(host)) + seq![0u8]
        + seq![(qtype / 256) as u8, (qtype % 256) as u8] + seq![0u8, 1]
}

/// Encode a DNS query for `host` of the given record `qtype`.
pub fn build_query(host: &str, qtype: u16) -> (m: Vec<u8>)
    ensures
        m@ == query_message(host.spec_bytes(), qtype),
{
    let h = host.as_bytes();
    let mut m: Vec<u8> = Vec::new();
    m.push(0x00);
    m.push(0x00);  // ID 0 (DoH caches on content)
    m.push(0x01);
    m.push(0x00);  // flags: RD
    m.push(0x00);
    m.push(0x01);  // QDCOUNT
    m.push(0x00);
    m.push(0x00);  // ANCOUNT
    m.push(0x00);
    m.push(0x00);  // NSCOUNT
    m.push(0x00);
    m.push(0x00);  // ARCOUNT
    let ghost header = m@;
    assert(header =~= seq![0u8, 0, 1, 0, 0, 1, 0, 0, 0, 0, 0, 0]);
    let mut cur: Vec<u8> = Vec::new();
    let ghost mut done: Seq<Seq<u8>> = Seq::empty();
    let mut i: usize = 0;
    while i < h.len()
        invariant
            i <= h@.len(),
            split_dots(h@.subrange(0, i as int)) == done.push(cur@),
            m@ == header + encode_labels(done),
        decreases h@.len() - i,
    {
        let b = h[i];
        assert(h@.subrange(0, i + 1).drop_last() =~= h@.subrange(0, i as int));
        if b == 0x2E {
            push_label(&mut m, &cur);
            proof {
                assert(encode_labels(done.push(cur@)) == encode_labels(done) + label_bytes(cur@)) by {
                    assert(done.push(cur@).drop_last() =~= done);
                }
                done = done.push(cur@);
            }
            cur = Vec::new();
        } else {
            cur.push(b);
        }
        i = i + 1;
    }
    push_label(&mut m, &cur);
    proof {
        assert(h@.subrange(0, h@.len() as int) =~= h@);
        assert(done.push(cur@).drop_last() =~= done);
    }
    m.push(0x00);  // root
    m.push((qtype / 256) as u8);
    m.push((qtype % 256) as u8);
    m.push(0x00);
    m.push(0x01);  // class IN
    assert(m@ =~= query_message(host.spec_bytes(), qtype));
    m
}

/// Append one label: its length byte and its bytes, or nothing for an empty
/// piece.
fn push_label(m: &mut Vec<u8>, label: &Vec<u8>)
    ensures
        final(m)@ == old(m)@ + label_bytes(label@),
{
    if label.len() > 0 {
        m.push((label.len() % 256) as u8);
        m.extend_from_slice(label.as_slice());
    }
    assert(final(m)@ =~= old(m)@ + label_bytes(label@));
}

/// What went wrong resolving over DoH.
pub enum DnsError {
    /// The resolver's TLS name is not a valid server name.
    BadResolverName,
    /// The resolver could not be reached (the OS's description).
    Connect(String),
    /// Reading or writing the connection failed (the OS's description).
    Io(String),
    /// The TLS layer refused (its description).
    Tls(String),
    /// The HTTP response was malformed.
    BadHttp,
    /// The resolver answered with a status other than 200 (its status line).
    HttpStatus(String),
    /// The DNS message was malformed.
    BadResponse,
}

/// The offset just past a (possibly compressed) DNS name starting at `p`: a
/// pointer (top two bits set) is two bytes and ends the name, a zero length
/// byte ends it, any other length byte is followed by that many bytes.
pub open spec fn name_end(msg: Seq<u8>, p: int) -> Option<int>
    decreases msg.len() - p,
{
    if p < 0 || p >= msg.len() {
        None
    } else if msg[p] >= 0xC0 {
        Some(p + 2)
    } else if msg[p] == 0 {
        Some(p + 1)
    } else if p + 1 + msg[p] as int >= msg.len() {
        None
    } else {
        name_end(msg, p + 1 + msg[p] as int)
    }
}

/// The offset after `k` questions starting at `p` (a name, then type and
/// class).
pub open spec fn skip_questions(msg: Seq<u8>, p: int, k: nat) -> Option<int>
    decreases k,
{
    if k == 0 {
        Some(p)
    } else {
        match name_end(msg, p) {
            None => None,
            Some(q) => skip_questions(msg, q + 4, (k - 1) as nat),
        }
    }
}

/// The IPv4 addresses of the A records (type 1, 4 bytes of data) among `k`
/// answer records starting at `p`, in order; other records are skipped. A
/// record that runs past the message makes the whole message malformed.
pub open spec fn a_records(msg: Seq<u8>, p: int, k: nat) -> Option<Seq<Seq<u8>>>
    decreases k,
{
    if k == 0 {
        Some(Seq::empty())
    } else {
        match name_end(msg, p) {
            None => None,
            Some(q) => if q + 10 > msg.len() {
                None
            } else {
                let rtype = msg[q] as int * 256 + msg[q + 1] as int;
                let rdlen = msg[q + 8] as int * 256 + msg[q + 9] as int;
                let r = q + 10;
                if r + rdlen > msg.len() {
                    None
                } else {
                    let this = if rtype == 1 && rdlen == 4 {
                        seq![msg.subrange(r, r + 4)]
                    } else {
                        Seq::empty()
                    };
                    match a_records(msg, r + rdlen, (k - 1) as nat) {
                        None => None,
                        Some(rest) => Some(this + rest),
                    }
                }
            },
        }
    }
}

/// The A-record addresses of a DNS response, or `None` if it is malformed.
pub open spec fn response_addresses(msg: Seq<u8>) -> Option<Seq<Seq<u8>>> {
    if msg.len() < 12 {
        None
    } else {
        let qd = msg[4] as nat * 256 + msg[5] as nat;
        let an = msg[6] as nat * 256 + msg[7] as nat;
        match skip_questions(msg, 12, qd) {
            None => None,
            Some(p) => a_records(msg, p, an),
        }
    }
}

/// Advance past a (possibly compressed) DNS name, returning the offset after
/// it.
pub fn skip_name(msg: &[u8], p: usize) -> (r: Result<usize, DnsError>)
    requires
        msg@.len() <= isize::MAX,
    ensures
        match name_end(msg@, p as int) {
            Some(q) => r matches Ok(x) && x == q,
            None => r matches Err(DnsError::BadResponse),
        },
{
    if p >= msg.len() {
        return Err(DnsError::BadResponse);
    }
    let mut i = p;
    loop
        invariant
            msg@.len() <= isize::MAX,
            i <= msg@.len() + 256,
            name_end(msg@, i as int) == name_end(msg@, p as int),
        decreases msg@.len() + 256 - i,
    {
        if i >= msg.len() {
            return Err(DnsError::BadResponse);
        }
        let len = msg[i];
        let top = len & 0xC0;
        assert(top == 0xC0 <==> len >= 0xC0) by (bit_vector)
            requires
                top == len & 0xC0,
        ;
        if top == 0xC0 {
            return Ok(i + 2);  // pointer: two bytes, the name ends here
        }
        if len == 0 {
            return Ok(i + 1);
        }
        i = i + 1 + len as usize;
    }
}

/// Parse the A records out of a DNS response message.
pub fn parse_answers_a(msg: &[u8]) -> (r: Result<Vec<[u8; 4]>, DnsError>)
    requires
        msg@.len() <= isize::MAX,
    ensures
        match response_addresses(msg@) {
            Some(addrs) => r matches Ok(v) && v@.len() == addrs.len() && forall|i: int|
                0 <= i < addrs.len() ==> #[trigger] v@[i]@ == addrs[i],
            None => r matches Err(DnsError::BadResponse),
        },
{
    if msg.len() < 12 {
        return Err(DnsError::BadResponse);
    }
    let qd = (msg[4] as usize) * 256 + msg[5] as usize;
    let an = (msg[6] as usize) * 256 + msg[7] as usize;
    let mut p: usize = 12;
    // Skip the questions.
    let mut k: usize = 0;
    while k < qd
        invariant
            msg@.len() <= isize::MAX,
            12 <= msg@.len(),
            k <= qd,
            p <= msg@.len() + 5,
            qd == msg@[4] as nat * 256 + msg@[5] as nat,
            skip_questions(msg@, p as int, (qd - k) as nat) == skip_questions(msg@, 12, qd as nat),
        decreases qd - k,
    {
        let q = match skip_name(msg, p) {
            Ok(q) => q,
            Err(e) => return Err(e),
        };
        proof {
            lemma_name_end_bound(msg@, p as int);
        }
        p = q + 4;  // qtype + qclass
        k = k + 1;
    }
    let ghost after_q = p as int;
    let mut out: Vec<[u8; 4]> = Vec::new();
    let mut k: usize = 0;
    while k < an
        invariant
            msg@.len() <= isize::MAX,
            12 <= msg@.len(),
            k <= an,
            p <= msg@.len() + 5,
            an == msg@[6] as nat * 256 + msg@[7] as nat,
            skip_questions(msg@, 12, msg@[4] as nat * 256 + msg@[5] as nat) == Some(after_q),
            match a_records(msg@, p as int, (an - k) as nat) {
                Some(rest) => a_records(msg@, after_q, an as nat) == Some(out@.map_values(|a: [u8; 4]| a@) + rest),
                None => a_records(msg@, after_q, an as nat) is None,
            },
        decreases an - k,
    {
        let q = match skip_name(msg, p) {
            Ok(q) => q,
            Err(e) => return Err(e),
        };
        proof {
            lemma_name_end_bound(msg@, p as int);
        }
        if q + 10 > msg.len() {
            return Err(DnsError::BadResponse);
        }
        let rtype = (msg[q] as usize) * 256 + msg[q + 1] as usize;
        let rdlen = (msg[q + 8] as usize) * 256 + msg[q + 9] as usize;
        let r = q + 10;
        if r + rdlen > msg.len() {
            return Err(DnsError::BadResponse);
        }
        let ghost before = out@.map_values(|a: [u8; 4]| a@);
        if rtype == 1 && rdlen == 4 {
            let a = [msg[r], msg[r + 1], msg[r + 2], msg[r + 3]];
            assert(a@ =~= msg@.subrange(r as int, r + 4));
            out.push(a);
        }
        proof {
            let this = if rtype == 1 && rdlen == 4 {
                seq![msg@.subrange(r as int, r + 4)]
            } else {
                Seq::empty()
            };
            assert(out@.map_values(|a: [u8; 4]| a@) =~= before + this);
            if let Some(rest) = a_records(msg@, (r + rdlen) as int, (an - k - 1) as nat) {
                assert(before + (this + rest) =~= (before + this) + rest);
            }
        }
        p = r + rdlen;
        k = k + 1;
    }
    proof {
        assert(out@.map_values(|a: [u8; 4]| a@) + Seq::<Seq<u8>>::empty() =~= out@.map_values(|a: [u8; 4]| a@));
    }
    Ok(out)
}

proof fn lemma_name_end_bound(msg: Seq<u8>, p: int)
    ensures
        name_end(msg, p) matches Some(q) ==> q <= msg.len() + 1,
    decreases msg.len() - p,
{
    if 0 <= p < msg.len() && msg[p] < 0xC0 && msg[p] != 0 && p + 1 + msg[p] < msg.len() {
        lemma_name_end_bound(msg, p + 1 + msg[p] as int);
    }
}

/// The first offset at or after `from` where `pat` occurs in `s`, as
/// `windows(pat.len()).position(..)` finds it.
pub open spec fn find_from(s: Seq<u8>, pat: Seq<u8>, from: int) -> Option<int>
    decreases s.len() - from,
{
    if from < 0 || from >= s.len() || from + pat.len() > s.len() {
        None
    } else if s.subrange(from, from + pat.len()) == pat {
        Some(from)
    } else {
        find_from(s, pat, from + 1)
    }
}

/// Whether `pat` occurs in `s`.
pub open spec fn contains(s: Seq<u8>, pat: Seq<u8>) -> bool {
    find_from(s, pat, 0) is Some
}

/// Where [`find_from`] finds `pat`, it is there.
pub proof fn lemma_find_from_bounds(s: Seq<u8>, pat: Seq<u8>, from: int)
    ensures
        find_from(s, pat, from) matches Some(i) ==> from <= i && i + pat.len() <= s.len()
            && s.subrange(i, i + pat.len()) == pat,
    decreases s.len() - from,
{
    if !(from < 0 || from >= s.len() || from + pat.len() > s.len())
        && s.subrange(from, from + pat.len()) != pat {
        lemma_find_from_bounds(s, pat, from + 1);
    }
}

/// CR LF.
pub open spec fn crlf() -> Seq<u8> {
    seq![0x0Du8, 0x0A]
}

/// The blank line that ends the HTTP head.
pub open spec fn blank_line() -> Seq<u8> {
    seq![0x0Du8, 0x0A, 0x0D, 0x0A]
}

/// `" 200"`, looked for in the status line.
pub open spec fn status_200() -> Seq<u8> {
    seq![0x20u8, 0x32, 0x30, 0x30]
}

/// `"transfer-encoding: chunked"`, looked for in the lower-cased head.
pub open spec fn chunked_marker() -> Seq<u8> {
    seq![
        0x74u8, 0x72, 0x61, 0x6E, 0x73, 0x66, 0x65, 0x72, 0x2D, 0x65, 0x6E, 0x63, 0x6F, 0x64,
        0x69, 0x6E, 0x67, 0x3A, 0x20, 0x63, 0x68, 0x75, 0x6E, 0x6B, 0x65, 0x64,
    ]
}

/// The first line of `head`, as `str::lines` gives it: up to the first LF,
/// without a CR just before it.
pub open spec fn first_line(head: Seq<u8>) -> Seq<u8> {
    match find_from(head, seq![0x0Au8], 0) {
        Some(i) => if i > 0 && head[i - 1] == 0x0D {
            head.subrange(0, i - 1)
        } else {
            head.subrange(0, i)
        },
        None => head,
    }
}

/// ASCII lower case of one byte.
pub open spec fn ascii_lower(b: u8) -> u8 {
    if 0x41 <= b <= 0x5A {
        (b + 32) as u8
    } else {
        b
    }
}

/// `s` in ASCII lower case.
pub open spec fn lowered(s: Seq<u8>) -> Seq<u8> {
    s.map_values(|b: u8| ascii_lower(b))
}

/// The size on a chunk-size line: its text, trimmed, read as hexadecimal.
pub open spec fn chunk_size_of(line: Seq<u8>) -> Option<usize> {
    parse_hex(trimmed(lossy_text(line)))
}

/// What a chunked HTTP body decodes to.
pub enum Dechunked {
    /// The data of the chunks, joined.
    Data(Seq<u8>),
    /// The framing is broken: a size line without CRLF, a size that is not
    /// hexadecimal, or a chunk that, with the CRLF after it, runs past what is
    /// left (a truncated body).
    Malformed,
}

/// Decode the chunks of `b`, appending their data to `out`; a chunk of size
/// zero ends the body.
pub open spec fn dechunked(b: Seq<u8>, out: Seq<u8>) -> Dechunked
    decreases b.len(),
{
    match find_from(b, crlf(), 0) {
        None => Dechunked::Malformed,
        Some(nl) => match chunk_size_of(b.subrange(0, nl)) {
            None => Dechunked::Malformed,
            Some(size) => {
                proof {
                    lemma_find_from_bounds(b, crlf(), 0);
                }
                let rest = b.subrange(nl + 2, b.len() as int);
                if size == 0 {
                    Dechunked::Data(out)
                } else if size + 2 > rest.len() {
                    Dechunked::Malformed
                } else {
                    dechunked(
                        rest.subrange(size + 2, rest.len() as int),
                        out + rest.subrange(0, size as int),
                    )
                }
            },
        },
    }
}

/// Whether the bytes of `s` at `i` are `pat`.
fn matches_at(s: &[u8], i: usize, pat: &[u8]) -> (b: bool)
    requires
        i + pat@.len() <= s@.len(),
    ensures
        b == (s@.subrange(i as int, i + pat@.len()) == pat@),
{
    let n = s.len();
    let mut j: usize = 0;
    while j < pat.len()
        invariant
            n == s@.len(),
            j <= pat@.len(),
            i + pat@.len() <= s@.len(),
            forall|k: int| 0 <= k < j ==> s@[i + k] == pat@[k],
        decreases pat@.len() - j,
    {
        if s[i + j] != pat[j] {
            assert(s@.subrange(i as int, i + pat@.len())[j as int] != pat@[j as int]);
            return false;
        }
        j = j + 1;
    }
    assert(s@.subrange(i as int, i + pat@.len()) =~= pat@);
    true
}

/// The first offset where `pat` occurs in `s`.
fn find(s: &[u8], pat: &[u8]) -> (r: Option<usize>)
    requires
        pat@.len() > 0,
    ensures
        match find_from(s@, pat@, 0) {
            Some(i) => r == Some(i as usize),
            None => r is None,
        },
{
    let mut i: usize = 0;
    while i < s.len() && pat.len() <= s.len() - i
        invariant
            pat@.len() > 0,
            i <= s@.len(),
            find_from(s@, pat@, 0) == find_from(s@, pat@, i as int),
        decreases s@.len() - i,
    {
        if matches_at(s, i, pat) {
            return Some(i);
        }
        i = i + 1;
    }
    None
}

/// Append ASCII lower case of `s`, byte by byte.
fn lower_ascii(s: &[u8]) -> (r: Vec<u8>)
    ensures
        r@ == lowered(s@),
{
    let mut r: Vec<u8> = Vec::new();
    let mut i: usize = 0;
    while i < s.len()
        invariant
            i <= s@.len(),
            r@ == lowered(s@.subrange(0, i as int)),
        decreases s@.len() - i,
    {
        let b = s[i];
        let l = if 0x41 <= b && b <= 0x5A {
            b + 32
        } else {
            b
        };
        r.push(l);
        assert(lowered(s@.subrange(0, i + 1)) =~= lowered(s@.subrange(0, i as int)).push(l));
        i = i + 1;
    }
    assert(s@.subrange(0, s@.len() as int) =~= s@);
    r
}

/// The first line of `head`, as [`first_line`].
fn first_line_of(head: &[u8]) -> (r: &[u8])
    ensures
        r@ == first_line(head@),
{
    let lf: [u8; 1] = [0x0A];
    assert(lf@ =~= seq![0x0Au8]);
    let lf_s = lf.as_slice();
    assert(lf_s@ == seq![0x0Au8]);
    let n = head.len();
    match find(head, lf_s) {
        Some(i) => {
            proof {
                lemma_find_from_bounds(head@, lf_s@, 0);
                let j = find_from(head@, lf_s@, 0)->0;
                assert(0 <= j && j + 1 <= n && j == i);
            }
            if i > 0 && head[i - 1] == 0x0D {
                vstd::slice::slice_subrange(head, 0, i - 1)
            } else {
                vstd::slice::slice_subrange(head, 0, i)
            }
        },
        None => head,
    }
}

/// The size on a chunk-size line, as [`chunk_size_of`].
fn chunk_size(line: &[u8]) -> (r: Option<usize>)
    ensures
        r == chunk_size_of(line@),
{
    let text = lossy_string(line);
    let t = trim_white_space(text.as_str());
    parse_hex_usize(t.as_str())
}

/// Decode HTTP chunked transfer encoding. A truncated body, where a chunk and
/// its CRLF run past the end, is malformed like any other broken framing.
pub fn dechunk(b: &[u8]) -> (r: Result<Vec<u8>, DnsError>)
    ensures
        match dechunked(b@, Seq::empty()) {
            Dechunked::Data(d) => r matches Ok(v) && v@ == d,
            Dechunked::Malformed => r matches Err(DnsError::BadHttp),
        },
{
    let n = b.len();
    let crlf_bytes: [u8; 2] = [0x0D, 0x0A];
    assert(crlf_bytes@ =~= crlf());
    let mut pos: usize = 0;
    let mut out: Vec<u8> = Vec::new();
    assert(b@.subrange(0, n as int) =~= b@);
    loop
        invariant
            pos <= n,
            n == b@.len(),
            crlf_bytes@ == crlf(),
            dechunked(b@, Seq::empty()) == dechunked(b@.subrange(pos as int, n as int), out@),
        decreases n - pos,
    {
        let rest = vstd::slice::slice_subrange(b, pos, n);
        let nl = match find(rest, crlf_bytes.as_slice()) {
            Some(nl) => nl,
            None => return Err(DnsError::BadHttp),
        };
        proof {
            lemma_find_from_bounds(rest@, crlf(), 0);
        }
        let size = match chunk_size(vstd::slice::slice_subrange(rest, 0, nl)) {
            Some(size) => size,
            None => return Err(DnsError::BadHttp),
        };
        let after = pos + nl + 2;
        assert(rest@.subrange(nl + 2, rest@.len() as int) =~= b@.subrange(after as int, n as int));
        if size == 0 {
            return Ok(out);
        }
        if size > n - after || size + 2 > n - after {
            return Err(DnsError::BadHttp);
        }
        let ghost before = out@;
        out.extend_from_slice(vstd::slice::slice_subrange(b, after, after + size));
        proof {
            let r2 = b@.subrange(after as int, n as int);
            assert(r2.subrange(0, size as int) =~= b@.subrange(after as int, after + size));
            assert(r2.subrange(size + 2, r2.len() as int) =~= b@.subrange(after + size + 2, n as int));
            assert(out@ =~= before + r2.subrange(0, size as int));
            assert(dechunked(rest@, before) == dechunked(
                r2.subrange(size + 2, r2.len() as int),
                before + r2.subrange(0, size as int),
            ));
        }
        pos = after + size + 2;
    }
}

/// `"\ncontent-length:"`, looked for in the lower-cased head: the start of a
/// `Content-Length` header line.
pub open spec fn length_marker() -> Seq<u8> {
    seq![
        0x0Au8, 0x63, 0x6F, 0x6E, 0x74, 0x65, 0x6E, 0x74, 0x2D, 0x6C, 0x65, 0x6E, 0x67, 0x74,
        0x68, 0x3A,
    ]
}

/// A space or a tab: white space around a header value.
pub open spec fn is_ows(b: u8) -> bool {
    b == 0x20 || b == 0x09
}

/// `s` without leading spaces and tabs.
pub open spec fn trim_ows_start(s: Seq<u8>) -> Seq<u8>
    decreases s.len(),
{
    if s.len() > 0 && is_ows(s[0]) {
        trim_ows_start(s.drop_first())
    } else {
        s
    }
}

/// `s` without trailing spaces and tabs.
pub open spec fn trim_ows_end(s: Seq<u8>) -> Seq<u8>
    decreases s.len(),
{
    if s.len() > 0 && is_ows(s.last()) {
        trim_ows_end(s.drop_last())
    } else {
        s
    }
}

/// Whether every byte of `s` is an ASCII decimal digit.
pub open spec fn ascii_digits(s: Seq<u8>) -> bool {
    forall|i: int| 0 <= i < s.len() ==> 0x30 <= #[trigger] s[i] <= 0x39
}

/// The number the ASCII digits `s` spell, most significant first.
pub open spec fn digits_number(s: Seq<u8>) -> nat
    decreases s.len(),
{
    if s.len() == 0 {
        0
    } else {
        digits_number(s.drop_last()) * 10 + (s.last() - 0x30) as nat
    }
}

/// A `Content-Length` value: one or more digits, with optional white space
/// around them, whose number fits in a `usize`.
pub open spec fn length_value(v: Seq<u8>) -> Option<usize> {
    let t = trim_ows_end(trim_ows_start(v));
    if t.len() > 0 && ascii_digits(t) && digits_number(t) <= usize::MAX {
        Some(digits_number(t) as usize)
    } else {
        None
    }
}

/// What the head declares about the body's length: `None` without a
/// `Content-Length` line (the name in any case), otherwise the value up to
/// the end of its line, if it is one.
pub open spec fn content_length(head: Seq<u8>) -> Option<Option<usize>> {
    match find_from(lowered(head), length_marker(), 0) {
        None => None,
        Some(p) => {
            let rest = head.subrange(p + 16, head.len() as int);
            let end = match find_from(rest, seq![0x0Du8], 0) {
                Some(e) => e,
                None => rest.len() as int,
            };
            Some(length_value(rest.subrange(0, end)))
        },
    }
}

/// Where [`find_from`] finds nothing, `pat` occurs at no offset from `from`
/// on.
proof fn lemma_find_from_none(s: Seq<u8>, pat: Seq<u8>, from: int, j: int)
    requires
        find_from(s, pat, from) is None,
        0 <= from <= j,
        j + pat.len() <= s.len(),
        pat.len() > 0,
    ensures
        s.subrange(j, j + pat.len()) != pat,
    decreases j - from,
{
    if j > from {
        lemma_find_from_none(s, pat, from + 1, j);
    }
}

/// [`find_from`] finds the first offset from `from` on where `pat` occurs.
proof fn lemma_find_from_first(s: Seq<u8>, pat: Seq<u8>, from: int, k: int)
    requires
        0 <= from <= k,
        k + pat.len() <= s.len(),
        pat.len() > 0,
        s.subrange(k, k + pat.len()) == pat,
        forall|j: int| from <= j < k ==> #[trigger] s.subrange(j, j + pat.len()) != pat,
    ensures
        find_from(s, pat, from) == Some(k),
    decreases k - from,
{
    if from < k {
        lemma_find_from_first(s, pat, from + 1, k);
    }
}

/// `"\r\nContent-Length: "`: a header line that declares the body's length,
/// as servers write it.
pub open spec fn length_line() -> Seq<u8> {
    seq![
        0x0Du8, 0x0A, 0x43, 0x6F, 0x6E, 0x74, 0x65, 0x6E, 0x74, 0x2D, 0x4C, 0x65, 0x6E, 0x67,
        0x74, 0x68, 0x3A, 0x20,
    ]
}

/// A `Content-Length` line is read up to the end of that line, wherever it
/// stands in the head: with any header lines before it that declare no length
/// (`h1`, starting with the status line) and any after it (`h2`), the head
/// declares the number its digits spell.
pub proof fn law_content_length_reads_its_line(h1: Seq<u8>, digits: Seq<u8>, h2: Seq<u8>)
    requires
        forall|i: int|
            0 <= i && i + 16 <= h1.len() ==> #[trigger] lowered(h1).subrange(i, i + 16) != seq![
                0x0Au8, 0x63, 0x6F, 0x6E, 0x74, 0x65, 0x6E, 0x74, 0x2D, 0x6C, 0x65, 0x6E, 0x67,
                0x74, 0x68, 0x3A,
            ],
        digits.len() > 0,
        forall|i: int| 0 <= i < digits.len() ==> 0x30 <= #[trigger] digits[i] <= 0x39,
        digits_number(digits) <= usize::MAX,
    ensures
        content_length(h1 + length_line() + digits + crlf() + h2) == Some(
            Some(digits_number(digits) as usize),
        ),
{
    let head = h1 + length_line() + digits + crlf() + h2;
    let low = lowered(head);
    let m = length_marker();
    let a = h1.len() as int;
    let k = a + 1;
    assert(low.len() == head.len());
    assert forall|j: int| 0 <= j < k implies #[trigger] low.subrange(j, j + m.len()) != m by {
        if j + 16 <= a {
            assert(low.subrange(j, j + 16) =~= lowered(h1).subrange(j, j + 16));
        } else {
            assert(low[a] == 0x0D);
            assert(low.subrange(j, j + 16)[a - j] == 0x0D);
        }
    }
    assert(low.subrange(k, k + 16) =~= m);
    lemma_find_from_first(low, m, 0, k);
    let rest = head.subrange(k + 16, head.len() as int);
    let e = 1 + digits.len() as int;
    assert(rest[0] == 0x20);
    assert forall|j: int| 0 <= j < e implies #[trigger] rest.subrange(j, j + 1) != seq![0x0Du8] by {
        if j > 0 {
            assert(rest[j] == digits[j - 1]);
        }
        assert(rest.subrange(j, j + 1)[0] == rest[j]);
    }
    assert(rest.subrange(e, e + 1) =~= seq![0x0Du8]);
    lemma_find_from_first(rest, seq![0x0Du8], 0, e);
    let value = rest.subrange(0, e);
    assert(value.drop_first() =~= digits);
    assert(trim_ows_start(value.drop_first()) == digits);
    assert(trim_ows_start(value) == digits);
    assert(trim_ows_end(digits) == digits);
    assert(ascii_digits(digits));
}

proof fn lemma_digits_number_grows(s: Seq<u8>, k: int)
    requires
        0 <= k <= s.len(),
    ensures
        digits_number(s.take(k)) <= digits_number(s),
    decreases s.len() - k,
{
    if k < s.len() {
        lemma_digits_number_grows(s, k + 1);
        assert(s.take(k + 1).drop_last() =~= s.take(k));
    } else {
        assert(s.take(k) =~= s);
    }
}

/// Read a `Content-Length` value, as [`length_value`].
fn length_value_of(v: &[u8]) -> (r: Option<usize>)
    ensures
        r == length_value(v@),
{
    let n = v.len();
    let mut i: usize = 0;
    assert(v@.subrange(0, n as int) =~= v@);
    while i < n && (v[i] == 0x20 || v[i] == 0x09)
        invariant
            i <= n,
            n == v@.len(),
            trim_ows_start(v@) == trim_ows_start(v@.subrange(i as int, n as int)),
        decreases n - i,
    {
        assert(v@.subrange(i as int, n as int).drop_first() =~= v@.subrange(i + 1, n as int));
        i = i + 1;
    }
    assert(trim_ows_start(v@) == v@.subrange(i as int, n as int));
    let mut j: usize = n;
    while j > i && (v[j - 1] == 0x20 || v[j - 1] == 0x09)
        invariant
            i <= j <= n,
            n == v@.len(),
            trim_ows_end(v@.subrange(i as int, n as int)) == trim_ows_end(
                v@.subrange(i as int, j as int),
            ),
        decreases j - i,
    {
        assert(v@.subrange(i as int, j as int).drop_last() =~= v@.subrange(i as int, j - 1));
        j = j - 1;
    }
    let ghost t = v@.subrange(i as int, j as int);
    assert(trim_ows_end(trim_ows_start(v@)) == t);
    if i == j {
        return None;
    }
    let mut acc: usize = 0;
    let mut k: usize = i;
    while k < j
        invariant
            i <= k <= j <= n,
            n == v@.len(),
            t == v@.subrange(i as int, j as int),
            trim_ows_end(trim_ows_start(v@)) == t,
            ascii_digits(t.take(k - i)),
            acc == digits_number(t.take(k - i)),
        decreases j - k,
    {
        assert(t.take(k - i + 1).drop_last() =~= t.take(k - i));
        let c = v[k];
        if c < 0x30 || c > 0x39 {
            assert(t[k - i] == c);
            return None;
        }
        let next = match acc.checked_mul(10) {
            Some(m) => m.checked_add((c - 0x30) as usize),
            None => None,
        };
        match next {
            Some(x) => {
                acc = x;
            },
            None => {
                proof {
                    assert(digits_number(t.take(k - i + 1)) > usize::MAX);
                    lemma_digits_number_grows(t, k - i + 1);
                }
                return None;
            },
        }
        assert(ascii_digits(t.take(k - i + 1))) by {
            assert forall|m: int| 0 <= m < k - i + 1 implies 0x30 <= #[trigger] t.take(
                k - i + 1,
            )[m] <= 0x39 by {
                if m < k - i {
                    assert(t.take(k - i + 1)[m] == t.take(k - i)[m]);
                }
            }
        }
        k = k + 1;
    }
    assert(t.take(j - i) =~= t);
    Some(acc)
}

/// What `head` declares about the body's length, as [`content_length`].
fn declared_length(head: &[u8]) -> (r: Option<Option<usize>>)
    ensures
        r == content_length(head@),
{
    let lower = lower_ascii(head);
    let marker: [u8; 16] = [
        0x0A, 0x63, 0x6F, 0x6E, 0x74, 0x65, 0x6E, 0x74, 0x2D, 0x6C, 0x65, 0x6E, 0x67, 0x74, 0x68,
        0x3A,
    ];
    assert(marker@ =~= length_marker());
    let lower_s = lower.as_slice();
    let marker_s = marker.as_slice();
    assert(marker_s@ == length_marker());
    let ln = lower_s.len();
    match find(lower_s, marker_s) {
        None => None,
        Some(p) => {
            proof {
                lemma_find_from_bounds(lower_s@, marker_s@, 0);
                let i = find_from(lower_s@, marker_s@, 0)->0;
                assert(0 <= i && i + 16 <= ln && i == p);
            }
            let hn = head.len();
            let start: usize = p + 16;
            let rest = vstd::slice::slice_subrange(head, start, hn);
            let cr: [u8; 1] = [0x0D];
            assert(cr@ =~= seq![0x0Du8]);
            let end = match find(rest, cr.as_slice()) {
                Some(e) => {
                    proof {
                        lemma_find_from_bounds(rest@, seq![0x0Du8], 0);
                    }
                    e
                },
                None => rest.len(),
            };
            Some(length_value_of(vstd::slice::slice_subrange(rest, 0, end)))
        },
    }
}

/// What [`http_body`] gives for the raw response `raw`, provided the status
/// line holds `" 200"`: the body after the blank line, decoded if the head
/// says it is chunked, else cut to its `Content-Length` where the head gives
/// one (an error if the value is not a number or more bytes are declared than
/// arrived), else all of it.
pub open spec fn http_body_result(raw: Seq<u8>, r: Result<Vec<u8>, DnsError>) -> bool {
    match find_from(raw, blank_line(), 0) {
        None => r matches Err(DnsError::BadHttp),
        Some(sep) => {
            let head = raw.subrange(0, sep);
            let body = raw.subrange(sep + 4, raw.len() as int);
            if !contains(first_line(head), status_200()) {
                r matches Err(DnsError::HttpStatus(s)) && s@ == trimmed(lossy_text(first_line(head)))
            } else if contains(lowered(head), chunked_marker()) {
                match dechunked(body, Seq::empty()) {
                    Dechunked::Data(d) => r matches Ok(v) && v@ == d,
                    _ => r matches Err(DnsError::BadHttp),
                }
            } else {
                match content_length(head) {
                    None => r matches Ok(v) && v@ == body,
                    Some(None) => r matches Err(DnsError::BadHttp),
                    Some(Some(n)) => if n <= body.len() {
                        r matches Ok(v) && v@ == body.subrange(0, n as int)
                    } else {
                        r matches Err(DnsError::BadHttp)
                    },
                }
            }
        },
    }
}

/// Whether the head of a response has a `" 200"` status line, and whether it
/// declares a chunked body.
fn read_head(head: &[u8]) -> (r: (bool, bool))
    ensures
        r.0 == contains(first_line(head@), status_200()),
        r.1 == contains(lowered(head@), chunked_marker()),
{
    let line = first_line_of(head);
    let status: [u8; 4] = [0x20, 0x32, 0x30, 0x30];
    assert(status@ =~= status_200());
    let ok = find(line, status.as_slice()).is_some();
    let marker: [u8; 26] = [
        0x74, 0x72, 0x61, 0x6E, 0x73, 0x66, 0x65, 0x72, 0x2D, 0x65, 0x6E, 0x63, 0x6F, 0x64, 0x69,
        0x6E, 0x67, 0x3A, 0x20, 0x63, 0x68, 0x75, 0x6E, 0x6B, 0x65, 0x64,
    ];
    assert(marker@ =~= chunked_marker());
    let lower = lower_ascii(head);
    let chunked = find(lower.as_slice(), marker.as_slice()).is_some();
    (ok, chunked)
}

/// Split an HTTP/1.1 response into its body: what follows the blank line,
/// decoded where the head declares chunked transfer encoding, cut to the
/// declared `Content-Length` otherwise; an error where there is no blank line,
/// the status is not 200, or the framing is broken or truncated.
pub fn http_body(raw: &[u8]) -> (r: Result<Vec<u8>, DnsError>)
    ensures
        http_body_result(raw@, r),
{
    let n = raw.len();
    let blank: [u8; 4] = [0x0D, 0x0A, 0x0D, 0x0A];
    assert(blank@ =~= blank_line());
    let sep = match find(raw, blank.as_slice()) {
        Some(sep) => sep,
        None => return Err(DnsError::BadHttp),
    };
    proof {
        lemma_find_from_bounds(raw@, blank_line(), 0);
    }
    let head = vstd::slice::slice_subrange(raw, 0, sep);
    let body = vstd::slice::slice_subrange(raw, sep + 4, raw.len());
    let (ok, chunked) = read_head(head);
    if !ok {
        let line = first_line_of(head);
        let text = lossy_string(line);
        return Err(DnsError::HttpStatus(trim_white_space(text.as_str())));
    }
    if chunked {
        dechunk(body)
    } else {
        match declared_length(head) {
            None => Ok(vstd::slice::slice_to_vec(body)),
            Some(None) => Err(DnsError::BadHttp),
            Some(Some(len)) => if len <= body.len() {
                Ok(vstd::slice::slice_to_vec(vstd::slice::slice_subrange(body, 0, len)))
            } else {
                Err(DnsError::BadHttp)
            },
        }
    }
}

impl DnsError {
    /// The text of the error.
    pub open spec fn message_text(&self) -> Seq<char> {
        match *self {
            DnsError::BadResolverName => "the resolver's TLS name is invalid"@,
            DnsError::Connect(e) => "could not reach the DoH resolver: "@ + e@,
            DnsError::Io(e) => "DoH I/O error: "@ + e@,
            DnsError::Tls(e) => "DoH TLS error: "@ + e@ + " (the resolver's SNI may be blocked)"@,
            DnsError::BadHttp => "malformed HTTP response from the resolver"@,
            DnsError::HttpStatus(s) => "resolver returned a non-200 status: "@ + s@,
            DnsError::BadResponse => "malformed DNS response"@,
        }
    }

    /// What the error says.
    pub fn message(&self) -> (r: String)
        ensures
            r@ == self.message_text(),
    {
        match self {
            DnsError::BadResolverName => String::from_str("the resolver's TLS name is invalid"),
            DnsError::Connect(e) => {
                let mut s = String::from_str("could not reach the DoH resolver: ");
                s.append(e.as_str());
                s
            },
            DnsError::Io(e) => {
                let mut s = String::from_str("DoH I/O error: ");
                s.append(e.as_str());
                s
            },
            DnsError::Tls(e) => {
                let mut s = String::from_str("DoH TLS error: ");
                s.append(e.as_str());
                s.append(" (the resolver's SNI may be blocked)");
                s
            },
            DnsError::BadHttp => String::from_str("malformed HTTP response from the resolver"),
            DnsError::HttpStatus(st) => {
                let mut s = String::from_str("resolver returned a non-200 status: ");
                s.append(st.as_str());
                s
            },
            DnsError::BadResponse => String::from_str("malformed DNS response"),
        }
    }
}

/// A DoH endpoint: where to connect, the name to present in TLS, the path to
/// POST to, and a name to show.
#[derive(Clone)]
pub struct Resolver {
    /// The resolver's IPv4 address.
    pub addr: [u8; 4],
    pub port: u16,
    pub sni: String,
    pub path: String,
    pub name: String,
}

/// The request head that POSTs a DNS message of `len` bytes to `path` on
/// `sni`.
pub open spec fn request_head(path: Seq<char>, sni: Seq<char>, len: nat) -> Seq<char> {
    "POST "@ + path + " HTTP/1.1\r\nHost: "@ + sni
        + "\r\nAccept: application/dns-message\r\nContent-Type: application/dns-message\r\nContent-Length: "@
        + decimal(len) + "\r\nConnection: close\r\n\r\n"@
}

impl Resolver {
    /// Cloudflare's `1.1.1.1`.
    pub fn cloudflare() -> (r: Resolver)
        ensures
            r.addr@ == seq![1u8, 1, 1, 1],
            r.port == 443,
            r.sni@ == "cloudflare-dns.com"@,
            r.path@ == "/dns-query"@,
            r.name@ == "Cloudflare"@,
    {
        let r = Resolver {
            addr: [1, 1, 1, 1],
            port: 443,
            sni: String::from_str("cloudflare-dns.com"),
            path: String::from_str("/dns-query"),
            name: String::from_str("Cloudflare"),
        };
        assert(r.addr@ =~= seq![1u8, 1, 1, 1]);
        r
    }

    /// Google's `8.8.8.8`.
    pub fn google() -> (r: Resolver)
        ensures
            r.addr@ == seq![8u8, 8, 8, 8],
            r.port == 443,
            r.sni@ == "dns.google"@,
            r.path@ == "/dns-query"@,
            r.name@ == "Google"@,
    {
        let r = Resolver {
            addr: [8, 8, 8, 8],
            port: 443,
            sni: String::from_str("dns.google"),
            path: String::from_str("/dns-query"),
            name: String::from_str("Google"),
        };
        assert(r.addr@ =~= seq![8u8, 8, 8, 8]);
        r
    }

    /// The HTTP request head that carries a DNS message of `len` bytes.
    pub fn request_head(&self, len: usize) -> (r: String)
        ensures
            r@ == request_head(self.path@, self.sni@, len as nat),
    {
        let mut s = String::from_str("POST ");
        s.append(self.path.as_str());
        s.append(" HTTP/1.1\r\nHost: ");
        s.append(self.sni.as_str());
        s.append(
            "\r\nAccept: application/dns-message\r\nContent-Type: application/dns-message\r\nContent-Length: ",
        );
        push_decimal(&mut s, len as u128);
        s.append("\r\nConnection: close\r\n\r\n");
        s
    }
}

} // verus!
