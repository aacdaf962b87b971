use mole::dns::{
    build_query, dechunk, http_body, parse_answers_a, skip_name, DnsError,
    Resolver,
};

#[test]
fn query_encodes_labels() {
    let q = build_query("example.com", 1);
    assert_eq!(q[12], 7);
    assert_eq!(&q[13..20], b"example");
    assert_eq!(q[20], 3);
    assert_eq!(&q[21..24], b"com");
    assert_eq!(q[24], 0);
    assert_eq!(&q[25..29], &[0x00, 0x01, 0x00, 0x01]);
}

#[test]
fn query_header_and_empty_labels() {
    let q = build_query("a..b.", 28);
    assert_eq!(&q[..12], &[0, 0, 1, 0, 0, 1, 0, 0, 0, 0, 0, 0]);
    // Empty pieces between dots are left out.
    assert_eq!(&q[12..], &[1, b'a', 1, b'b', 0, 0, 28, 0, 1]);
}

#[test]
fn parses_a_record_with_compression() {
    let mut m = vec![0, 0, 0x81, 0x80, 0, 1, 0, 1, 0, 0, 0, 0];
    m.extend_from_slice(&[7]);
    m.extend_from_slice(b"example");
    m.extend_from_slice(&[3]);
    m.extend_from_slice(b"com");
    m.push(0);
    m.extend_from_slice(&[0, 1, 0, 1]);
    m.extend_from_slice(&[0xC0, 0x0C]);
    m.extend_from_slice(&[0, 1, 0, 1, 0, 0, 0, 60, 0, 4, 93, 184, 216, 34]);
    let ips = parse_answers_a(&m).unwrap_or_else(|_| panic!("should parse"));
    assert_eq!(ips, vec![[93, 184, 216, 34]]);
}

#[test]
fn answers_skip_other_record_types() {
    // No questions; a CNAME-ish record (type 5) then an A record.
    let mut m = vec![0, 0, 0x81, 0x80, 0, 0, 0, 2, 0, 0, 0, 0];
    m.extend_from_slice(&[0, 0, 5, 0, 1, 0, 0, 0, 1, 0, 2, 0xC0, 0x0C]);
    m.extend_from_slice(&[0, 0, 1, 0, 1, 0, 0, 0, 1, 0, 4, 1, 2, 3, 4]);
    assert_eq!(parse_answers_a(&m).ok(), Some(vec![[1, 2, 3, 4]]));
}

#[test]
fn malformed_answers_are_refused() {
    // Too short for a header.
    assert!(matches!(parse_answers_a(&[0; 11]), Err(DnsError::BadResponse)));
    // One answer announced, none present.
    let m = vec![0, 0, 0x81, 0x80, 0, 0, 0, 1, 0, 0, 0, 0];
    assert!(matches!(parse_answers_a(&m), Err(DnsError::BadResponse)));
    // An answer whose data runs past the end.
    let mut m = vec![0, 0, 0x81, 0x80, 0, 0, 0, 1, 0, 0, 0, 0];
    m.extend_from_slice(&[0, 0, 1, 0, 1, 0, 0, 0, 1, 0, 4, 1, 2]);
    assert!(matches!(parse_answers_a(&m), Err(DnsError::BadResponse)));
}

#[test]
fn skip_name_follows_labels_and_pointers() {
    let m = [3, b'w', b'w', b'w', 0, 0xC0, 0x00, 9];
    assert_eq!(skip_name(&m, 0).ok(), Some(5));
    assert_eq!(skip_name(&m, 5).ok(), Some(7));
    // A label running past the end, and a start past the end.
    assert!(matches!(skip_name(&[5, 1, 2], 0), Err(DnsError::BadResponse)));
    assert!(matches!(skip_name(&m, 8), Err(DnsError::BadResponse)));
}

#[test]
fn dechunk_reassembles() {
    let body = b"4\r\nWiki\r\n5\r\npedia\r\n0\r\n\r\n";
    assert_eq!(dechunk(body).unwrap_or_else(|_| panic!("should decode")), b"Wikipedia".to_vec());
}

#[test]
fn dechunk_reads_sizes_like_from_str_radix() {
    // Upper-case hex, a '+' sign and white space around the size.
    let body = b" +A \r\n0123456789\r\n0\r\n";
    assert_eq!(dechunk(body).ok(), Some(b"0123456789".to_vec()));
    // Not hexadecimal, no CRLF, a chunk longer than what is left.
    assert!(matches!(dechunk(b"x\r\nab\r\n0\r\n"), Err(DnsError::BadHttp)));
    assert!(matches!(dechunk(b"4 Wiki"), Err(DnsError::BadHttp)));
    assert!(matches!(dechunk(b"9\r\nWiki\r\n"), Err(DnsError::BadHttp)));
}

#[test]
fn http_body_reads_plain_and_chunked_bodies() {
    let plain = b"HTTP/1.1 200 OK\r\nContent-Length: 3\r\n\r\nabc";
    assert_eq!(http_body(plain).ok(), Some(b"abc".to_vec()));
    let chunked = b"HTTP/1.1 200 OK\r\nTransfer-Encoding: CHUNKED\r\n\r\n3\r\nabc\r\n0\r\n\r\n";
    assert_eq!(http_body(chunked).ok(), Some(b"abc".to_vec()));
}

#[test]
fn http_body_reports_status_and_framing_errors() {
    match http_body(b"HTTP/1.1 404 Not Found\r\nX: y\r\n\r\n") {
        Err(DnsError::HttpStatus(s)) => assert_eq!(s, "HTTP/1.1 404 Not Found"),
        _ => panic!("expected a status error"),
    }
    assert!(matches!(http_body(b"HTTP/1.1 200 OK\r\n"), Err(DnsError::BadHttp)));
}

#[test]
fn a_truncated_chunk_is_malformed() {
    assert!(matches!(dechunk(b"4\r\nWiki"), Err(DnsError::BadHttp)));
    assert!(matches!(dechunk(b"4\r\nWiki\r"), Err(DnsError::BadHttp)));
    let overrun = b"HTTP/1.1 200 OK\r\ntransfer-encoding: chunked\r\n\r\n3\r\nabc";
    assert!(matches!(http_body(overrun), Err(DnsError::BadHttp)));
}

#[test]
fn http_body_honours_content_length() {
    let raw = b"HTTP/1.1 200 OK\r\nContent-Length: 3\r\n\r\nabcdef";
    assert_eq!(http_body(raw).ok().unwrap(), b"abc".to_vec());
    let spaced = b"HTTP/1.1 200 OK\r\nContent-Type: x\r\ncontent-length:  4 \r\n\r\nabcdef";
    assert_eq!(http_body(spaced).ok().unwrap(), b"abcd".to_vec());
    let short = b"HTTP/1.1 200 OK\r\nContent-Length: 9\r\n\r\nabc";
    assert!(matches!(http_body(short), Err(DnsError::BadHttp)));
    let bad = b"HTTP/1.1 200 OK\r\nContent-Length: x1\r\n\r\nabc";
    assert!(matches!(http_body(bad), Err(DnsError::BadHttp)));
    let other = b"HTTP/1.1 200 OK\r\nX-Content-Length: 1\r\n\r\nabc";
    assert_eq!(http_body(other).ok().unwrap(), b"abc".to_vec());
    let close = b"HTTP/1.1 200 OK\r\n\r\nbody";
    assert_eq!(http_body(close).ok().unwrap(), b"body".to_vec());
}

#[test]
fn resolvers_and_request_head() {
    let c = Resolver::cloudflare();
    assert_eq!(c.addr, [1, 1, 1, 1]);
    assert_eq!(c.port, 443);
    assert_eq!(c.name, "Cloudflare");
    let g = Resolver::google();
    assert_eq!(g.sni, "dns.google");
    assert_eq!(
        c.request_head(29),
        "POST /dns-query HTTP/1.1\r\nHost: cloudflare-dns.com\r\nAccept: application/dns-message\r\nContent-Type: application/dns-message\r\nContent-Length: 29\r\nConnection: close\r\n\r\n"
    );
}

#[test]
fn dns_errors_read_as_sentences() {
    assert_eq!(DnsError::BadHttp.message(), "malformed HTTP response from the resolver");
    assert_eq!(
        DnsError::Tls("bad cert".to_string()).message(),
        "DoH TLS error: bad cert (the resolver's SNI may be blocked)"
    );
    assert_eq!(
        DnsError::HttpStatus("HTTP/1.1 500".to_string()).message(),
        "resolver returned a non-200 status: HTTP/1.1 500"
    );
}

#[test]
fn status_lines_with_invalid_utf8_are_read_lossily() {
    match http_body(b"HTTP/1.1 502 Bad\xff Gateway \r\n\r\n") {
        Err(DnsError::HttpStatus(s)) => assert_eq!(s, "HTTP/1.1 502 Bad\u{fffd} Gateway"),
        _ => panic!("expected a status error"),
    }
}
