use mole::engine::{
    capture_filter, decide, emit_step, engine_filter, mode_flags, probe_filter, quic_filter,
    EmitStep, PacketAction, Stats,
};
use mole::ffi::{LoadError, WinDivertAddress};
use mole::packet::TcpView;
use mole::service::{conflicting_dpi_service, known_conflicting_services, ServiceError};
use mole::strategy::{build_client_hello, Cut, Strategy};
use mole::windivert::{Mode, Packet, WinDivertError};

fn packet_with(payload: &[u8]) -> Packet {
    let mut data = vec![0u8; 40 + payload.len()];
    data[0] = 0x45;
    data[9] = 6;
    data[22..24].copy_from_slice(&443u16.to_be_bytes());
    data[32] = 0x50;
    data[40..].copy_from_slice(payload);
    Packet { data, addr: WinDivertAddress::zeroed() }
}

#[test]
fn the_engine_reshapes_client_hellos_and_passes_the_rest() {
    let hello = packet_with(&build_client_hello("blocked.example"));
    match decide(&Strategy::Split { cut: Cut::Sni }, &hello) {
        PacketAction::Shape(emits) => {
            assert_eq!(emits.len(), 2);
            let view = TcpView::parse(&hello.data).unwrap();
            assert_eq!(emits.len(), Strategy::Split { cut: Cut::Sni }.apply(&hello, &view).len());
        }
        PacketAction::Pass => panic!("a ClientHello must be reshaped"),
    }
    assert!(matches!(decide(&Strategy::Passthrough, &packet_with(b"GET /")), PacketAction::Pass));
    assert!(matches!(
        decide(&Strategy::Passthrough, &Packet { data: vec![0x60; 10], addr: WinDivertAddress::zeroed() }),
        PacketAction::Pass
    ));
}

#[test]
fn filters_and_flags() {
    assert_eq!(engine_filter(), "outbound and tcp.DstPort == 443");
    assert_eq!(quic_filter(), "outbound and udp.DstPort == 443");
    assert_eq!(probe_filter([93, 184, 216, 34]), "outbound and tcp.DstPort == 443 and ip.DstAddr == 93.184.216.34");
    assert_eq!(capture_filter(8443), "outbound and tcp.DstPort == 8443");
    assert_eq!(mode_flags(Mode::Sniff), 1);
    assert_eq!(mode_flags(Mode::Divert), 0);
    assert_eq!(mode_flags(Mode::Drop), 3);
}

#[test]
fn counters_wrap_like_atomics() {
    let mut s = Stats::new();
    s.shaped();
    s.passed();
    s.passed();
    assert_eq!((s.handshakes_shaped, s.packets_passed), (1, 2));
    s.packets_passed = u64::MAX;
    s.passed();
    assert_eq!(s.packets_passed, 0);
}

#[test]
fn address_flags_and_interface() {
    let mut a = WinDivertAddress::zeroed();
    assert!(!a.is_outbound() && !a.is_ipv6());
    a.flags = (1 << 17) | (1 << 20);
    assert!(a.is_outbound() && a.is_ipv6());
    a.union[0] = 7;
    assert_eq!(a.if_idx(), u32::from_ne_bytes([7, 0, 0, 0]));
}

#[test]
fn the_address_record_is_sixty_four_bytes() {
    let a = WinDivertAddress::zeroed();
    assert_eq!(std::mem::size_of::<WinDivertAddress>(), 64);
    assert_eq!((a.timestamp, a.flags, a.reserved), (0, 0, 0));
    assert_eq!(a.union, [0u8; 48]);
}

#[test]
fn windivert_errors_explain_themselves() {
    match WinDivertError::open_failed(577) {
        WinDivertError::Open { code, hint } => {
            assert_eq!(code, 577);
            assert_eq!(hint, "the driver is not digitally signed / blocked by the OS or an antivirus");
        }
        _ => panic!("expected an open error"),
    }
    assert_eq!(
        WinDivertError::open_failed(5).message(),
        "could not open WinDivert (error 5): access denied — Mole must run as administrator"
    );
    assert!(WinDivertError::recv_failed(232).is_none());
    assert!(matches!(WinDivertError::recv_failed(6), Some(WinDivertError::Recv(6))));
    assert_eq!(WinDivertError::Send(87).message(), "WinDivertSend failed (error 87)");
    assert_eq!(WinDivertError::BadFilter.message(), "the filter string is not valid");
    assert_eq!(
        LoadError::MissingSymbol("WinDivertOpen".into()).message(),
        "WinDivert.dll is missing WinDivertOpen; it is an unexpected version"
    );
    assert_eq!(
        LoadError::DllNotLoaded { path: "C:\\x\\WinDivert.dll".into(), code: 193 }.message(),
        "WinDivert.dll at C:\\x\\WinDivert.dll could not be loaded (Windows error 193); is WinDivert64.sys beside it, and is this a 64-bit build?"
    );
}

#[test]
fn the_first_running_rival_is_reported() {
    assert_eq!(known_conflicting_services(), vec!["GoodbyeDPI", "zapret", "winws", "ByeDPI"]);
    assert_eq!(conflicting_dpi_service(|n| n == "winws" || n == "ByeDPI"), Some("winws"));
    assert_eq!(conflicting_dpi_service(|_| false), None);
    let asked = std::cell::RefCell::new(Vec::new());
    let found = conflicting_dpi_service(|n| {
        asked.borrow_mut().push(n);
        n == "zapret"
    });
    assert_eq!(found, Some("zapret"));
    assert_eq!(*asked.borrow(), vec!["GoodbyeDPI", "zapret"]);
}

#[test]
fn service_errors_carry_hints() {
    assert_eq!(
        ServiceError::from_code("CreateService", 1073).message(),
        "CreateService failed (Windows error 1073) (the service already exists)"
    );
    assert_eq!(
        ServiceError::from_code("OpenSCManager (are you elevated?)", 5).message(),
        "OpenSCManager (are you elevated?) failed (Windows error 5) (access denied — run as administrator)"
    );
    assert_eq!(ServiceError::from_code("StartService", 2).message(), "StartService failed (Windows error 2)");
}

#[test]
fn a_failed_first_send_falls_back_to_the_captured_packet() {
    assert_eq!(emit_step(false, true), EmitStep::Next);
    assert_eq!(emit_step(true, true), EmitStep::Next);
    assert_eq!(emit_step(false, false), EmitStep::SendCapturedAndStop);
    assert_eq!(emit_step(true, false), EmitStep::Stop);
}
