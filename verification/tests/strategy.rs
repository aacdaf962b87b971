use mole::checksum::tcp_checksum;
use mole::ffi::WinDivertAddress;
use mole::packet::{find_sni, TcpView};
use mole::strategy::{build_client_hello, Cut, Decoy, Strategy};
use mole::windivert::Packet;

// IPv4+TCP packet carrying `payload`, dst port 443, seq = 1000.
fn packet_with(payload: &[u8]) -> (Packet, TcpView) {
    let ihl = 20;
    let tcphl = 20;
    let mut data = vec![0u8; ihl + tcphl + payload.len()];
    data[0] = 0x45;
    data[9] = 6;
    data[16..20].copy_from_slice(&[10, 0, 0, 1]);
    let total = data.len() as u16;
    data[2..4].copy_from_slice(&total.to_be_bytes());
    data[ihl + 2..ihl + 4].copy_from_slice(&443u16.to_be_bytes());
    data[ihl + 4..ihl + 8].copy_from_slice(&1000u32.to_be_bytes());
    data[ihl + 12] = 0x50;
    data[ihl + tcphl..].copy_from_slice(payload);
    let view = TcpView::parse(&data).unwrap();
    (Packet { data, addr: WinDivertAddress::zeroed() }, view)
}

#[test]
fn split_two_segments_have_right_seqs_and_lengths() {
    let payload = b"ABCDEFGHIJ";
    let (pkt, view) = packet_with(payload);
    let out = Strategy::Split { cut: Cut::Fixed(4) }.apply(&pkt, &view);
    assert_eq!(out.len(), 2);
    let a = &out[0].packet.data;
    assert_eq!(&a[40..], b"ABCD");
    assert_eq!(u32::from_be_bytes([a[24], a[25], a[26], a[27]]), 1000);
    let b = &out[1].packet.data;
    assert_eq!(&b[40..], b"EFGHIJ");
    assert_eq!(u32::from_be_bytes([b[24], b[25], b[26], b[27]]), 1004);
    assert_eq!(u16::from_be_bytes([a[2], a[3]]), 44);
    assert_eq!(u16::from_be_bytes([b[2], b[3]]), 46);
}

#[test]
fn disorder_reverses_send_order() {
    let (pkt, view) = packet_with(b"ABCDEFGHIJ");
    let out = Strategy::Disorder { cut: Cut::Fixed(4) }.apply(&pkt, &view);
    assert_eq!(&out[0].packet.data[40..], b"EFGHIJ");
    assert_eq!(&out[1].packet.data[40..], b"ABCD");
}

#[test]
fn bad_checksum_decoy_is_marked_no_fix_and_actually_wrong() {
    let (pkt, view) = packet_with(b"hello handshake bytes");
    let out = Strategy::Fake { decoy: Decoy::BadChecksum }.apply(&pkt, &view);
    assert_eq!(out.len(), 2);
    assert!(!out[0].fix_checksums, "decoy must not be re-fixed on send");
    let d = &out[0].packet.data;
    let stored = u16::from_be_bytes([d[20 + 16], d[20 + 17]]);
    let correct = tcp_checksum([0, 0, 0, 0], [10, 0, 0, 1], &d[20..]);
    assert_ne!(stored, correct);
    assert!(out[1].fix_checksums);
    assert_eq!(&out[1].packet.data, &pkt.data);
}

#[test]
fn decoy_carries_a_benign_name_not_the_real_one() {
    let real = build_client_hello("blocked.example");
    let ihl = 20;
    let mut data = vec![0u8; ihl + 20 + real.len()];
    data[0] = 0x45;
    data[9] = 6;
    data[16..20].copy_from_slice(&[10, 0, 0, 1]);
    let total = data.len() as u16;
    data[2..4].copy_from_slice(&total.to_be_bytes());
    data[ihl + 2..ihl + 4].copy_from_slice(&443u16.to_be_bytes());
    data[ihl + 12] = 0x50;
    data[ihl + 20..].copy_from_slice(&real);
    let view = TcpView::parse(&data).unwrap();
    let pkt = Packet { data, addr: WinDivertAddress::zeroed() };

    let out = Strategy::Fake { decoy: Decoy::LowTtl(5) }.apply(&pkt, &view);
    let decoy_payload = &out[0].packet.data[40..];
    assert!(
        find_sni(decoy_payload).map(|(h, _)| h) == Some("www.google.com".to_string()),
        "decoy should carry the benign SNI"
    );
    assert!(
        find_sni(decoy_payload).map(|(h, _)| h) != Some("blocked.example".to_string()),
        "decoy must not carry the real, blocked SNI"
    );
}

#[test]
fn low_ttl_decoy_sets_ttl() {
    let (pkt, view) = packet_with(b"hello");
    let out = Strategy::Fake { decoy: Decoy::LowTtl(4) }.apply(&pkt, &view);
    assert_eq!(out[0].packet.data[8], 4);
    assert!(out[0].fix_checksums);
}

#[test]
fn wrong_seq_decoy_moves_sequence_below_real() {
    let (pkt, view) = packet_with(b"hello");
    let out = Strategy::Fake { decoy: Decoy::WrongSeq(10_000) }.apply(&pkt, &view);
    let d = &out[0].packet.data;
    let decoy_seq = u32::from_be_bytes([d[24], d[25], d[26], d[27]]);
    assert_eq!(decoy_seq, 1000u32.wrapping_sub(10_000));
    let r = &out[1].packet.data;
    assert_eq!(u32::from_be_bytes([r[24], r[25], r[26], r[27]]), 1000);
}

#[test]
fn passthrough_is_identity() {
    let (pkt, view) = packet_with(b"anything");
    let out = Strategy::Passthrough.apply(&pkt, &view);
    assert_eq!(out.len(), 1);
    assert_eq!(&out[0].packet.data, &pkt.data);
}

#[test]
fn split_segments_reassemble_the_payload() {
    let (pkt, view) = packet_with(b"0123456789abcdef");
    for cut in [Cut::Fixed(1), Cut::Fixed(7), Cut::Fixed(15), Cut::Sni] {
        let out = Strategy::Split { cut }.apply(&pkt, &view);
        assert_eq!(out.len(), 2);
        let mut joined = out[0].packet.data[40..].to_vec();
        joined.extend_from_slice(&out[1].packet.data[40..]);
        assert_eq!(joined, b"0123456789abcdef");
        // The headers before the payload are the captured packet's but for the IP
        // total length (and the sequence number of the second).
        assert_eq!(out[0].packet.data[..2], pkt.data[..2]);
        assert!(out.iter().all(|e| e.fix_checksums));
    }
}

#[test]
fn a_cut_outside_the_payload_leaves_the_packet_whole() {
    let (pkt, view) = packet_with(b"abc");
    for cut in [Cut::Fixed(0), Cut::Fixed(3), Cut::Fixed(99)] {
        let out = Strategy::Split { cut }.apply(&pkt, &view);
        assert_eq!(out.len(), 1);
        assert_eq!(out[0].packet.data, pkt.data);
    }
}

#[test]
fn sni_cut_falls_in_the_middle_of_the_name() {
    let hello = build_client_hello("blocked.example");
    let (pkt, view) = packet_with(&hello);
    let (_, off) = find_sni(&hello).unwrap();
    let out = Strategy::Split { cut: Cut::Sni }.apply(&pkt, &view);
    assert_eq!(out[0].packet.data.len() - 40, off + "blocked.example".len() / 2);
}

#[test]
fn fakesplit_sends_a_decoy_then_two_segments() {
    let (pkt, view) = packet_with(b"ABCDEFGHIJ");
    let out = Strategy::FakeSplit { decoy: Decoy::WrongSeq(7), cut: Cut::Fixed(3) }.apply(&pkt, &view);
    assert_eq!(out.len(), 3);
    assert_eq!(&out[1].packet.data[40..], b"ABC");
    assert_eq!(&out[2].packet.data[40..], b"DEFGHIJ");
    let d = &out[0].packet.data;
    assert_eq!(u32::from_be_bytes([d[24], d[25], d[26], d[27]]), 993);
}

#[test]
fn labels_name_each_strategy() {
    assert_eq!(Strategy::Passthrough.label(), "passthrough");
    assert_eq!(Strategy::Split { cut: Cut::Sni }.label(), "split:sni");
    assert_eq!(Strategy::Disorder { cut: Cut::Fixed(2) }.label(), "disorder:at2");
    assert_eq!(Strategy::Fake { decoy: Decoy::BadChecksum }.label(), "fake:badsum");
    assert_eq!(Strategy::Fake { decoy: Decoy::WrongSeq(10_000) }.label(), "fake:wseq10000");
    assert_eq!(
        Strategy::FakeSplit { decoy: Decoy::LowTtl(6), cut: Cut::Sni }.label(),
        "fakesplit:ttl6:sni"
    );
}

#[test]
fn probe_battery_is_cheapest_first() {
    let b = Strategy::probe_battery();
    assert_eq!(b.len(), 23);
    assert_eq!(b[0], Strategy::Split { cut: Cut::Sni });
    assert_eq!(b[4], Strategy::Fake { decoy: Decoy::BadChecksum });
    assert_eq!(b[5], Strategy::Fake { decoy: Decoy::LowTtl(2) });
    assert_eq!(b[12], Strategy::Fake { decoy: Decoy::LowTtl(9) });
    assert_eq!(b[15], Strategy::FakeSplit { decoy: Decoy::LowTtl(2), cut: Cut::Sni });
    assert_eq!(b[22], Strategy::FakeSplit { decoy: Decoy::LowTtl(9), cut: Cut::Sni });
}

#[test]
fn labels_read_back_as_their_strategies() {
    for s in Strategy::probe_battery() {
        assert_eq!(Strategy::from_label(&s.label()), Some(s));
    }
    assert_eq!(Strategy::from_label("passthrough"), Some(Strategy::Passthrough));
    assert_eq!(
        Strategy::from_label("fakesplit:ttl6:sni"),
        Some(Strategy::FakeSplit { decoy: Decoy::LowTtl(6), cut: Cut::Sni })
    );
    assert_eq!(
        Strategy::from_label("disorder:at0"),
        Some(Strategy::Disorder { cut: Cut::Fixed(0) })
    );
}

#[test]
fn only_labels_read_as_strategies() {
    for t in [
        "", "split", "split:", "split:at", "split:at07", "split:at+7", "fake:ttl256",
        "fake:wseq4294967296", "fakesplit:badsum", "fakesplit:sni:badsum", "Split:sni",
        "passthrough ", "fake:ttl6:sni", "disorder:sni:", "bogus",
    ] {
        assert_eq!(Strategy::from_label(t), None, "{t:?}");
    }
    assert_eq!(
        Strategy::from_label("fake:wseq4294967295"),
        Some(Strategy::Fake { decoy: Decoy::WrongSeq(u32::MAX) })
    );
}

#[test]
fn disorder_is_split_in_reverse() {
    let (pkt, view) = packet_with(b"ABCDEFGHIJ");
    for cut in [Cut::Fixed(4), Cut::Fixed(1), Cut::Fixed(0), Cut::Fixed(99), Cut::Sni] {
        let plain = Strategy::Split { cut }.apply(&pkt, &view);
        let reversed = Strategy::Disorder { cut }.apply(&pkt, &view);
        assert_eq!(plain.len(), reversed.len());
        for (a, b) in plain.iter().zip(reversed.iter().rev()) {
            assert_eq!(a.packet.data, b.packet.data);
            assert_eq!(a.fix_checksums, b.fix_checksums);
        }
    }
}
