use mole::deploy::uninstall_entry;
use mole::servicelog::{halve, stamped_line, tail, too_large, CAP_BYTES};
use mole::service::{
    checkpoint, is_stop_request, open_for_removal_failed, removal_result, service_command_line,
    ServiceError,
};
use mole::probe::{reachable_from, Block, Reach, Reachable};

#[test]
fn tail_gives_the_newest_lines_oldest_first() {
    let text = "one\r\ntwo\nthree\n";
    assert_eq!(tail(text, 2), vec!["two".to_string(), "three".to_string()]);
    assert_eq!(tail(text, 9), vec!["one".to_string(), "two".to_string(), "three".to_string()]);
    assert_eq!(tail(text, 0), Vec::<String>::new());
    assert_eq!(tail("", 3), Vec::<String>::new());
    // A carriage return without a line feed stays.
    assert_eq!(tail("a\rb\r", 5), vec!["a\rb\r".to_string()]);
    assert_eq!(tail("\n\nx", 5), vec!["".to_string(), "".to_string(), "x".to_string()]);
}

#[test]
fn halving_keeps_the_newer_half() {
    assert_eq!(halve("1\n2\n3\n4\n5\n"), "3\n4\n5\n");
    assert_eq!(halve("a\r\nb"), "b\n");
    assert_eq!(halve(""), "\n");
    assert!(!too_large(CAP_BYTES));
    assert!(too_large(CAP_BYTES + 1));
}

#[test]
fn log_lines_are_stamped() {
    assert_eq!(
        stamped_line(2025, 3, 7, 9, 5, 0, "protecting"),
        "2025-03-07 09:05:00  protecting"
    );
    assert_eq!(stamped_line(33, 12, 31, 23, 59, 59, "x"), "0033-12-31 23:59:59  x");
}

#[test]
fn service_manager_decisions() {
    assert_eq!(service_command_line("C:\\Program Files\\Mole\\mole.exe"), "\"C:\\Program Files\\Mole\\mole.exe\" service-run");
    assert!(is_stop_request(1));
    assert!(is_stop_request(5));
    assert!(!is_stop_request(4));
    assert_eq!(checkpoint(4, 7), (0, 7));
    assert_eq!(checkpoint(2, 7), (8, 8));
    assert!(open_for_removal_failed(1060).is_ok());
    assert!(matches!(open_for_removal_failed(5), Err(ServiceError::Win32 { op: "OpenService", code: 5 })));
    assert!(removal_result(true, 0).is_ok());
    assert!(removal_result(false, 1072).is_ok());
    assert!(matches!(removal_result(false, 5), Err(ServiceError::Win32 { op: "DeleteService", code: 5 })));
}

#[test]
fn a_single_handshake_reads_as_reachability() {
    assert!(matches!(reachable_from(Reach::TlsReply), Reachable::Yes));
    assert!(matches!(reachable_from(Reach::Reset), Reachable::Blocked(Block::Reset)));
    assert!(matches!(reachable_from(Reach::Silent), Reachable::Blocked(Block::Dropped)));
    assert!(matches!(reachable_from(Reach::NotTls), Reachable::Blocked(Block::Broke)));
    assert!(matches!(reachable_from(Reach::Broken), Reachable::Blocked(Block::Broke)));
    assert!(matches!(reachable_from(Reach::TcpFailed), Reachable::IpBlocked));
}

#[test]
fn the_uninstall_entry_quotes_the_executable() {
    let e = uninstall_entry("C:\\Program Files\\Mole\\mole.exe", "C:\\Program Files\\Mole", 3 * 1024 * 1024 + 10);
    assert_eq!(e.display_icon, "\"C:\\Program Files\\Mole\\mole.exe\"");
    assert_eq!(e.uninstall_string, "\"C:\\Program Files\\Mole\\mole.exe\" uninstall");
    assert_eq!(e.install_location, "C:\\Program Files\\Mole");
    assert_eq!(e.estimated_size_kb, 3072);
    assert_eq!(uninstall_entry("m", "", u64::MAX).estimated_size_kb, ((u64::MAX / 1024) % (1u64 << 32)) as u32);
}
