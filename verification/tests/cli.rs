use mole::cli::{
    apply_options, capture_line, capture_options, check_line, command_of, describe_packet,
    dns_options, probe_exit_code, probe_options, report_lines, targets_or_default, verdict_word,
    worth_reporting, chosen_strategy, target_outcome, ArgError, CaptureOpts, ChoiceError, Command,
    TargetOutcome,
};
use mole::strategy::{Cut, Strategy};
use mole::probe::{reach_detail, ProbeReport, Reach, Verdict};

fn args(a: &[&str]) -> Vec<String> {
    a.iter().map(|s| s.to_string()).collect()
}

#[test]
fn commands_are_read_from_the_first_word() {
    assert!(matches!(command_of(&[]), Command::Help));
    assert!(matches!(command_of(&args(&["-h"])), Command::Help));
    assert!(matches!(command_of(&args(&["probe", "x"])), Command::Probe));
    assert!(matches!(command_of(&args(&["doctor"])), Command::Doctor));
    assert!(matches!(command_of(&args(&["install", "--auto"])), Command::Install));
    assert!(matches!(command_of(&args(&["uninstall"])), Command::Uninstall));
    assert!(matches!(command_of(&args(&["status"])), Command::Status));
    assert!(matches!(command_of(&args(&["test", "x"])), Command::Test));
    assert!(matches!(command_of(&args(&["report"])), Command::Report));
    assert!(matches!(command_of(&args(&["service-run"])), Command::ServiceRun));
    match command_of(&args(&["frobnicate"])) {
        Command::Unknown(w) => assert_eq!(w, "frobnicate"),
        _ => panic!("expected an unknown command"),
    }
}

#[test]
fn capture_options_take_numbers_and_keep_defaults_otherwise() {
    let o = capture_options(&args(&[])).unwrap();
    assert_eq!(o, CaptureOpts { port: 443, count: 10, seconds: 60 });
    let o = capture_options(&args(&["--port", "80", "--count", "x", "--seconds", "5"])).unwrap();
    assert_eq!(o, CaptureOpts { port: 80, count: 10, seconds: 5 });
    let o = capture_options(&args(&["--port", "70000"])).unwrap();
    assert_eq!(o.port, 443);
    let o = capture_options(&args(&["--count"])).unwrap();
    assert_eq!(o.count, 10);
    assert_eq!(capture_options(&args(&["--verbose"])).err(), Some("--verbose".to_string()));
}

#[test]
fn dns_options_pick_host_and_resolver() {
    let d = dns_options(&args(&["--google", "example.com"])).ok().unwrap();
    assert_eq!(d.host, Some("example.com".to_string()));
    assert!(d.google);
    let d = dns_options(&args(&["--google", "--cloudflare"])).ok().unwrap();
    assert_eq!(d.host, None);
    assert!(!d.google);
    assert_eq!(dns_options(&args(&["--tcp"])).err(), Some("--tcp".to_string()));
}

#[test]
fn probe_options_read_hosts_flags_and_report_path() {
    let p = probe_options(&args(&["a.com", "--all", "--json", "out.json", "b.com"])).ok().unwrap();
    assert_eq!(p.hosts, args(&["a.com", "b.com"]));
    assert!(p.all);
    assert!(!p.google);
    assert_eq!(p.json, Some("out.json".to_string()));
    assert!(matches!(probe_options(&args(&["--json"])), Err(ArgError::MissingPath)));
    match probe_options(&args(&["--fast"])) {
        Err(ArgError::Unknown(o)) => assert_eq!(o, "--fast"),
        _ => panic!("expected an unknown option"),
    }
}

#[test]
fn apply_options_read_label_or_hosts() {
    let a = apply_options(&args(&["split:sni", "--block-quic"])).ok().unwrap();
    assert_eq!(a.label, Some("split:sni".to_string()));
    assert!(a.block_quic);
    assert!(!a.auto);
    let a = apply_options(&args(&["--auto", "x.com", "y.com"])).ok().unwrap();
    assert!(a.auto);
    assert_eq!(a.hosts, args(&["x.com", "y.com"]));
    assert_eq!(a.label, None);
    assert_eq!(apply_options(&args(&["--now"])).err(), Some("--now".to_string()));
}

#[test]
fn default_targets_fill_in_for_none() {
    assert_eq!(
        targets_or_default(Vec::new()),
        args(&["www.roblox.com", "discord.com", "www.wikipedia.org"])
    );
    assert_eq!(targets_or_default(args(&["a"])), args(&["a"]));
}

#[test]
fn verdict_words() {
    assert_eq!(verdict_word(&Verdict::NotBlocked), "not blocked");
    assert_eq!(verdict_word(&Verdict::NoBypass), "DPI block, no bypass");
    assert_eq!(verdict_word(&Verdict::DnsFailed), "DNS failed");
}

#[test]
fn probe_exit_code_is_zero_when_any_target_opened() {
    let blocked = ProbeReport::after_control("a", "Cloudflare", [1, 2, 3, 4], None, Reach::Silent, String::new());
    let ip = ProbeReport::after_control("b", "Cloudflare", [1, 2, 3, 4], None, Reach::TcpFailed, String::new());
    let open = ProbeReport::after_control("c", "Cloudflare", [1, 2, 3, 4], None, Reach::TlsReply, String::new());
    assert_eq!(probe_exit_code(&[blocked.clone(), ip.clone()]), 1);
    assert_eq!(probe_exit_code(&[blocked, open, ip]), 0);
    assert_eq!(probe_exit_code(&[]), 1);
}

#[test]
fn doctor_and_capture_lines() {
    assert_eq!(check_line(true, "driver", "installed"), "[ok]   driver — installed");
    assert_eq!(check_line(false, "administrator", ""), "[fail] administrator");
    assert_eq!(describe_packet([1, 2, 3, 4], 443, Some("a.com")), "1.2.3.4:443  SNI a.com");
    assert_eq!(describe_packet([1, 2, 3, 4], 443, None), "1.2.3.4:443");
    assert_eq!(
        capture_line(7, [9, 9, 9, 9], 443, Some(("x.org", 120)), 517),
        "  7. 9.9.9.9:443  SNI x.org  (name at payload offset 120)"
    );
    assert_eq!(capture_line(1234, [9, 9, 9, 9], 443, None, 12), "1234. 9.9.9.9:443  (12 payload bytes, no SNI)");
    assert!(worth_reporting(true, 0));
    assert!(worth_reporting(false, 8));
    assert!(!worth_reporting(false, 7));
}

#[test]
fn reports_print_verdict_results_and_note() {
    let mut r = ProbeReport::after_control("x.com", "Cloudflare", [10, 0, 0, 1], Some("zapret".into()), Reach::Reset, reach_detail(Reach::Reset));
    r.record("split:sni".into(), Reach::Silent, "dropped".into(), 12, true);
    r.record("fake:badsum".into(), Reach::TlsReply, "through".into(), 30, true);
    assert_eq!(
        report_lines(&r),
        args(&[
            "  resolved (Cloudflare) → 10.0.0.1",
            "    · split:sni              dropped (12 ms)",
            "    ✓ fake:badsum            through (30 ms)",
            "  outcome: BYPASS FOUND — use `fake:badsum` on this line.",
            "  note: 'zapret' service was running — results may be skewed.",
        ])
    );
    let d = ProbeReport::dns_failed("y.com", "Google", None, "timeout");
    assert_eq!(
        report_lines(&d),
        args(&[
            "  resolved (Google) → failed",
            "  outcome: could not resolve the target.",
            "           DNS resolution failed: timeout",
        ])
    );
}

#[test]
fn apply_uses_the_label_given_else_the_saved_one() {
    let sni = Strategy::Split { cut: Cut::Sni };
    assert!(matches!(chosen_strategy(Some("split:sni".into()), Some("bogus".into())), Ok(s) if s == sni));
    assert!(matches!(chosen_strategy(Some("bogus".into()), Some("split:sni".into())), Err(ChoiceError::UnknownLabel(l)) if l == "bogus"));
    assert!(matches!(chosen_strategy(None, Some("disorder:at2".into())), Ok(Strategy::Disorder { cut: Cut::Fixed(2) })));
    assert!(matches!(chosen_strategy(None, Some("nope".into())), Err(ChoiceError::SavedUnreadable(l)) if l == "nope"));
    assert!(matches!(chosen_strategy(None, None), Err(ChoiceError::NothingSaved)));
}

#[test]
fn a_measured_target_names_its_winner() {
    let mut r = ProbeReport::after_control("x.com", "Cloudflare", [1, 2, 3, 4], None, Reach::Silent, String::new());
    assert!(matches!(target_outcome(&r), TargetOutcome::NoWinner));
    r.record("fake:badsum".into(), Reach::TlsReply, String::new(), 1, true);
    match target_outcome(&r) {
        TargetOutcome::Chosen { label, strategy } => {
            assert_eq!(label, "fake:badsum");
            assert_eq!(strategy.label(), "fake:badsum");
        }
        _ => panic!("expected a chosen strategy"),
    }
    r.winner = Some("unknown".into());
    assert!(matches!(target_outcome(&r), TargetOutcome::Unreadable(l) if l == "unknown"));
}
