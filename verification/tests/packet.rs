use mole::packet::{find_sni, is_client_hello, TcpView};
use mole::strategy::build_client_hello;

/// A hand-built TLS 1.2 ClientHello for `example.com`, wrapped in a record.
fn client_hello_example_com() -> Vec<u8> {
    let host = b"example.com";
    let mut ext = Vec::new();
    ext.extend_from_slice(&[0x00, 0x00]); // type = server_name
    let sni_body_len = 2 + 1 + 2 + host.len();
    ext.extend_from_slice(&(sni_body_len as u16).to_be_bytes());
    ext.extend_from_slice(&((1 + 2 + host.len()) as u16).to_be_bytes());
    ext.push(0x00);
    ext.extend_from_slice(&(host.len() as u16).to_be_bytes());
    ext.extend_from_slice(host);

    let mut body = Vec::new();
    body.extend_from_slice(&[0x03, 0x03]);
    body.extend_from_slice(&[0u8; 32]);
    body.push(0x00);
    body.extend_from_slice(&[0x00, 0x02]);
    body.extend_from_slice(&[0x13, 0x01]);
    body.push(0x01);
    body.push(0x00);
    body.extend_from_slice(&(ext.len() as u16).to_be_bytes());
    body.extend_from_slice(&ext);

    let mut hs = Vec::new();
    hs.push(0x01);
    let l = body.len();
    hs.extend_from_slice(&[(l >> 16) as u8, (l >> 8) as u8, l as u8]);
    hs.extend_from_slice(&body);

    let mut rec = Vec::new();
    rec.push(0x16);
    rec.extend_from_slice(&[0x03, 0x01]);
    rec.extend_from_slice(&(hs.len() as u16).to_be_bytes());
    rec.extend_from_slice(&hs);
    rec
}

#[test]
fn finds_sni_and_offset() {
    let ch = client_hello_example_com();
    assert!(is_client_hello(&ch));
    let (host, off) = find_sni(&ch).expect("SNI should parse");
    assert_eq!(host, "example.com");
    assert_eq!(&ch[off..off + host.len()], b"example.com");
}

#[test]
fn ignores_non_handshake() {
    assert!(find_sni(&[0x17, 0x03, 0x03, 0x00, 0x05, 1, 2, 3, 4, 5]).is_none());
    assert!(!is_client_hello(&[0x17, 0x03, 0x03, 0x00, 0x01, 1]));
}

#[test]
fn parse_rejects_ipv6_and_truncated() {
    let mut v6 = vec![0u8; 60];
    v6[0] = 0x60;
    assert!(TcpView::parse(&v6).is_none());
    assert!(TcpView::parse(&[0x45, 0, 0, 0]).is_none());
    let mut udp = vec![0u8; 40];
    udp[0] = 0x45;
    udp[9] = 17;
    assert!(TcpView::parse(&udp).is_none());
}

/// An IPv6 address in its usual text form: hex groups, the longest run of two
/// or more zero groups written as `::`.
fn ipv6_text(b: &[u8]) -> String {
    let g: Vec<u16> = (0..8).map(|i| u16::from_be_bytes([b[2 * i], b[2 * i + 1]])).collect();
    let (mut best, mut best_len, mut i) = (0, 0, 0);
    while i < 8 {
        let mut j = i;
        while j < 8 && g[j] == 0 {
            j += 1;
        }
        if j - i > best_len {
            best = i;
            best_len = j - i;
        }
        i = j.max(i + 1);
    }
    let hex = |r: &[u16]| r.iter().map(|x| format!("{x:x}")).collect::<Vec<_>>().join(":");
    if best_len >= 2 {
        format!("{}::{}", hex(&g[..best]), hex(&g[best + best_len..]))
    } else {
        hex(&g)
    }
}

#[test]
fn parses_ipv6_tcp() {
    let mut p = vec![0u8; 40 + 20 + 5];
    p[0] = 0x60;
    p[4..6].copy_from_slice(&25u16.to_be_bytes());
    p[6] = 6;
    p[7] = 64;
    p[24..40].copy_from_slice(&[0x20, 0x01, 0xd, 0xb8, 0, 0, 0, 0, 0, 0, 0, 0, 0, 0, 0, 1]);
    p[40 + 2..40 + 4].copy_from_slice(&443u16.to_be_bytes());
    p[40 + 12] = 0x50;
    let v = TcpView::parse(&p).unwrap();
    assert_eq!(v.version, 6);
    assert_eq!(v.dst_port, 443);
    assert_eq!(v.tcp_offset, 40);
    assert_eq!(v.payload_offset, 60);
    assert_eq!(v.dst_bytes().len(), 16);
    assert_eq!(ipv6_text(v.dst_bytes()), "2001:db8::1");
}

#[test]
fn find_sni_survives_a_truncated_clienthello() {
    let truncated = [0x16, 0x03, 0x01, 0x02, 0x00, 0x01, 0x00, 0x01, 0xfc];
    assert!(find_sni(&truncated).is_none());
}

#[test]
fn tcpview_parses_ipv4_tcp() {
    let mut p = vec![0u8; 40];
    p[0] = 0x45;
    p[9] = 6;
    p[16..20].copy_from_slice(&[1, 2, 3, 4]);
    p[20 + 2] = 0x01;
    p[20 + 3] = 0xBB;
    p[20 + 12] = 0x50;
    p[20 + 13] = 0x02;
    let v = TcpView::parse(&p).unwrap();
    assert_eq!(v.dst_port, 443);
    assert!(v.syn);
    assert_eq!(v.payload_offset, 40);
}

#[test]
fn ipv6_extension_headers_are_walked_to_tcp() {
    // IPv6 + hop-by-hop (8 bytes) + fragment (8 bytes) + TCP(20).
    let mut p = vec![0u8; 40 + 8 + 8 + 20];
    p[0] = 0x60;
    p[6] = 0; // hop-by-hop
    p[40] = 44; // next: fragment
    p[41] = 0; // length: 8 bytes
    p[48] = 6; // next: TCP
    p[56 + 2..56 + 4].copy_from_slice(&443u16.to_be_bytes());
    p[56 + 12] = 0x50;
    p[56 + 13] = 0x12; // SYN + ACK
    let v = TcpView::parse(&p).unwrap();
    assert_eq!(v.tcp_offset, 56);
    assert_eq!(v.payload_offset, 76);
    assert!(v.syn && v.ack);
    assert_eq!(v.src_bytes().len(), 16);
    // An unknown extension header stops the walk.
    p[48] = 17;
    assert!(TcpView::parse(&p).is_none());
}

#[test]
fn ipv4_options_and_tcp_options_move_the_payload() {
    let mut p = vec![0u8; 24 + 24 + 3];
    p[0] = 0x46; // ihl 6
    p[9] = 6;
    p[12..16].copy_from_slice(&[10, 0, 0, 1]);
    p[24 + 12] = 0x60; // data offset 6
    p[48..51].copy_from_slice(b"abc");
    let v = TcpView::parse(&p).unwrap();
    assert_eq!(v.tcp_offset, 24);
    assert_eq!(v.payload_offset, 48);
    assert_eq!(v.payload(&p), b"abc");
    assert_eq!(v.src_bytes(), &[10, 0, 0, 1]);
    // A TCP data offset under 20 bytes is refused.
    p[24 + 12] = 0x40;
    assert!(TcpView::parse(&p).is_none());
}

#[test]
fn built_client_hello_names_its_host() {
    let ch = build_client_hello("blocked.example");
    assert!(is_client_hello(&ch));
    let (host, off) = find_sni(&ch).unwrap();
    assert_eq!(host, "blocked.example");
    assert_eq!(&ch[off..off + host.len()], b"blocked.example");
}
