use mole::checksum::{ipv4_checksum, ones_complement_sum, tcp_checksum, tcp_checksum_v6};

#[test]
fn ipv4_checksum_matches_known_header() {
    // The canonical Wikipedia IPv4 header (checksum field zero → 0xB861).
    let header = [
        0x45, 0x00, 0x00, 0x73, 0x00, 0x00, 0x40, 0x00, 0x40, 0x11, 0x00, 0x00, 0xc0, 0xa8,
        0x00, 0x01, 0xc0, 0xa8, 0x00, 0xc7,
    ];
    assert_eq!(ipv4_checksum(&header), 0xB861);
}

#[test]
fn ipv4_checksum_makes_the_header_verify() {
    let mut header = [
        0x45, 0x00, 0x00, 0x3c, 0x1c, 0x46, 0x40, 0x00, 0x40, 0x06, 0x00, 0x00, 0x0a, 0x00,
        0x00, 0x01, 0xc0, 0xa8, 0x00, 0xc7,
    ];
    let sum = ipv4_checksum(&header);
    header[10..12].copy_from_slice(&sum.to_be_bytes());
    // A header carrying its own correct checksum re-checksums to itself; a
    // receiver's verify (checksum of the whole header) then folds to zero.
    assert_eq!(ipv4_checksum(&header), sum);
    assert_eq!(ones_complement_sum(&header, 0), 0);
}

#[test]
fn tcp_checksum_is_stable_and_nonzero_field_independent() {
    let src = [10, 0, 0, 1];
    let dst = [93, 184, 216, 34];
    let mut tcp = vec![0u8; 24];
    tcp[0..2].copy_from_slice(&443u16.to_be_bytes());
    tcp[12] = 0x60; // data offset 6
    tcp[20..24].copy_from_slice(b"data");
    let a = tcp_checksum(src, dst, &tcp);
    // Whatever is already in the checksum field must not change the result.
    tcp[16..18].copy_from_slice(&0xABCDu16.to_be_bytes());
    assert_eq!(tcp_checksum(src, dst, &tcp), a);
}

#[test]
fn ones_complement_sum_folds_carries_and_pads_odd_bytes() {
    // 0xFFFF + 0x0001 = 0x1_0000, folded to 0x0001, complemented to 0xFFFE.
    assert_eq!(ones_complement_sum(&[0xFF, 0xFF, 0x00, 0x01], 0), 0xFFFE);
    // A trailing odd byte counts as the high byte of a word.
    assert_eq!(ones_complement_sum(&[0x12], 0), !0x1200u16);
    // The initial value is added in.
    assert_eq!(ones_complement_sum(&[], 5), !5u16);
}

#[test]
fn tcp_checksum_of_a_segment_with_its_checksum_verifies() {
    let src = [192, 168, 0, 1];
    let dst = [192, 168, 0, 199];
    let mut tcp = vec![0u8; 20];
    tcp[0..2].copy_from_slice(&50000u16.to_be_bytes());
    tcp[2..4].copy_from_slice(&443u16.to_be_bytes());
    tcp[12] = 0x50;
    let sum = tcp_checksum(src, dst, &tcp);
    tcp[16..18].copy_from_slice(&sum.to_be_bytes());
    // Pseudo-header + segment with its checksum in place sums to all ones.
    let pseudo = 0xC0A8u32 + 0x0001 + 0xC0A8 + 0x00C7 + 6 + 20;
    assert_eq!(ones_complement_sum(&tcp, pseudo), 0);
}

#[test]
fn tcp_checksum_v6_ignores_its_field_and_covers_addresses() {
    let mut src = [0u8; 16];
    src[15] = 1;
    let mut dst = [0u8; 16];
    dst[0] = 0x20;
    dst[1] = 0x01;
    dst[15] = 2;
    let mut tcp = vec![0u8; 20];
    tcp[12] = 0x50;
    let a = tcp_checksum_v6(&src, &dst, &tcp);
    tcp[16] = 0x12;
    tcp[17] = 0x34;
    assert_eq!(tcp_checksum_v6(&src, &dst, &tcp), a);
    let mut other = dst;
    other[15] = 3;
    assert_ne!(tcp_checksum_v6(&src, &other, &tcp), a);
}

#[test]
fn tcp_checksum_makes_the_segment_verify() {
    let src = [10, 0, 0, 1];
    let dst = [93, 184, 216, 34];
    let mut tcp = vec![0u8; 25];
    tcp[0..2].copy_from_slice(&443u16.to_be_bytes());
    tcp[12] = 0x50;
    tcp[20..25].copy_from_slice(b"hello");
    let sum = tcp_checksum(src, dst, &tcp);
    tcp[16..18].copy_from_slice(&sum.to_be_bytes());
    assert_eq!(tcp_checksum(src, dst, &tcp), sum);
    let mut pseudo: u32 = 0;
    for w in [src, dst] {
        pseudo += u32::from(u16::from_be_bytes([w[0], w[1]])) + u32::from(u16::from_be_bytes([w[2], w[3]]));
    }
    pseudo += 6 + tcp.len() as u32;
    assert_eq!(ones_complement_sum(&tcp, pseudo), 0);
}
