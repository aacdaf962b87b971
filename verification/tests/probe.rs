use mole::packet::{find_sni, is_client_hello};
use mole::dns::DnsError;
use mole::probe::{
    classify, client_hello_bytes, control_verdict, filter_failed_detail, reach_detail, resolved_target,
    CommunityReport, Exchange, Handshake, ProbeOptions, ProbeReport, Reach, ReadResult, Verdict,
};

#[test]
fn replies_are_classified_by_their_first_bytes() {
    let tls = [22, 3, 1, 0, 0, 0, 0, 0];
    let done = Handshake::Completed;
    assert_eq!(classify(Exchange::Replied(ReadResult::Bytes(tls, done))), Reach::TlsReply);
    assert_eq!(classify(Exchange::Replied(ReadResult::Bytes([21, 3, 0, 0, 0, 0, 0, 0], done))), Reach::TlsReply);
    assert_eq!(classify(Exchange::Replied(ReadResult::Bytes([20, 3, 0, 0, 0, 0, 0, 0], done))), Reach::NotTls);
    assert_eq!(classify(Exchange::Replied(ReadResult::Bytes(*b"HTTP/1.1", done))), Reach::NotTls);
    // A TLS reply followed by a broken connection is no success.
    assert_eq!(classify(Exchange::Replied(ReadResult::Bytes(tls, Handshake::Broke))), Reach::Broken);
    assert_eq!(classify(Exchange::Replied(ReadResult::Bytes(*b"HTTP/1.1", Handshake::Broke))), Reach::NotTls);
    assert_eq!(classify(Exchange::Replied(ReadResult::Closed)), Reach::Reset);
    assert_eq!(classify(Exchange::Replied(ReadResult::TimedOut)), Reach::Silent);
    assert_eq!(classify(Exchange::Replied(ReadResult::ConnectionReset)), Reach::Reset);
    assert_eq!(classify(Exchange::Replied(ReadResult::OtherError)), Reach::Silent);
    assert_eq!(classify(Exchange::ConnectFailed), Reach::TcpFailed);
    assert_eq!(classify(Exchange::NoHello), Reach::TcpFailed);
    assert_eq!(classify(Exchange::WriteFailed), Reach::Reset);
}

#[test]
fn the_control_settles_open_and_ip_blocked_targets() {
    assert_eq!(control_verdict(Reach::TlsReply), Some(Verdict::NotBlocked));
    assert_eq!(control_verdict(Reach::TcpFailed), Some(Verdict::IpBlocked));
    assert_eq!(control_verdict(Reach::Silent), None);
    assert_eq!(control_verdict(Reach::Reset), None);
    assert_eq!(control_verdict(Reach::NotTls), None);
    assert_eq!(control_verdict(Reach::Broken), None);
}

#[test]
fn details_explain_each_reach() {
    assert_eq!(reach_detail(Reach::TlsReply), "server replied — the handshake got through");
    assert_eq!(
        reach_detail(Reach::Reset),
        "the connection was reset right after the ClientHello (filter injected a RST)"
    );
    assert_eq!(
        reach_detail(Reach::Broken),
        "the server replied, then the connection broke before the handshake completed"
    );
    assert_eq!(filter_failed_detail("boom"), "could not open filter: boom");
}

#[test]
fn the_first_a_record_is_the_target() {
    assert_eq!(resolved_target(Ok(vec![[1, 2, 3, 4], [5, 6, 7, 8]])), Ok([1, 2, 3, 4]));
    assert_eq!(
        resolved_target(Ok(Vec::new())),
        Err("the resolver returned no A records".to_string())
    );
    assert_eq!(resolved_target(Err(DnsError::BadResponse)), Err("malformed DNS response".to_string()));
}

#[test]
fn a_report_records_strategies_until_the_first_win() {
    let mut r = ProbeReport::after_control("x.com", "Cloudflare", [10, 0, 0, 1], None, Reach::Reset, reach_detail(Reach::Reset));
    assert_eq!(r.verdict, Verdict::NoBypass);
    assert_eq!(r.resolved_ip, Some("10.0.0.1".to_string()));
    assert_eq!(r.control_detail, reach_detail(Reach::Reset));
    assert!(!r.record("split:sni".to_string(), Reach::TcpFailed, filter_failed_detail("busy"), 12, true));
    assert_eq!(r.results[0].detail, "could not open filter: busy");
    assert_eq!(r.verdict, Verdict::NoBypass);
    assert_eq!(r.winner, None);
    assert!(r.record("fake:badsum".to_string(), Reach::TlsReply, reach_detail(Reach::TlsReply), 30, true));
    assert_eq!(r.verdict, Verdict::BypassFound);
    assert_eq!(r.winner, Some("fake:badsum".to_string()));
    assert_eq!(r.results.len(), 2);
    assert!(!r.results[0].passed && r.results[1].passed);
    assert_eq!(r.results[1].elapsed_ms, 30);
    // Measuring everything does not stop at a win, and the first win stays
    // the winner.
    assert!(!r.record("split:at2".to_string(), Reach::TlsReply, reach_detail(Reach::TlsReply), 5, false));
    assert_eq!(r.winner, Some("fake:badsum".to_string()));
    assert_eq!(r.verdict, Verdict::BypassFound);
    assert!(r.results[2].passed);
}

#[test]
fn with_every_strategy_measured_the_first_win_is_chosen() {
    let mut r = ProbeReport::after_control("x.com", "Cloudflare", [10, 0, 0, 1], None, Reach::Silent, String::new());
    assert!(!r.record("split:sni".to_string(), Reach::Broken, reach_detail(Reach::Broken), 1, false));
    assert_eq!(r.winner, None);
    assert!(!r.record("disorder:sni".to_string(), Reach::TlsReply, String::new(), 2, false));
    assert!(!r.record("fake:badsum".to_string(), Reach::TlsReply, String::new(), 3, false));
    assert!(!r.record("fake:ttl6".to_string(), Reach::Reset, String::new(), 4, false));
    assert_eq!(r.winner, Some("disorder:sni".to_string()));
    assert_eq!(r.verdict, Verdict::BypassFound);
    assert_eq!(r.results.len(), 4);
}

#[test]
fn an_open_control_is_not_blocked() {
    let r = ProbeReport::after_control("y.com", "Google", [8, 8, 4, 4], Some("zapret".to_string()), Reach::TlsReply, reach_detail(Reach::TlsReply));
    assert_eq!(r.verdict, Verdict::NotBlocked);
    assert_eq!(r.conflict, Some("zapret".to_string()));
    assert_eq!(r.resolver, "Google");
}

#[test]
fn dns_failures_make_their_own_report() {
    let r = ProbeReport::dns_failed("z.com", "Cloudflare", None, "timeout");
    assert_eq!(r.verdict, Verdict::DnsFailed);
    assert_eq!(r.control_detail, "DNS resolution failed: timeout");
    assert_eq!(r.resolved_ip, None);
    assert!(r.results.is_empty());
}

#[test]
fn community_reports_carry_the_privacy_statement() {
    let c = CommunityReport::new(1_700_000_000, None, None, Vec::new());
    assert_eq!(c.schema, 1);
    assert!(c.privacy.starts_with("Contains only: strategies tried"));
    assert!(c.privacy.ends_with("nothing identifying."));
    let o = ProbeOptions::standard();
    assert_eq!(o.timeout_ms, 4000);
    assert!(o.stop_on_first);
    assert_eq!(o.strategies.len(), 23);
    assert_eq!(o.resolver.name, "Cloudflare");
}

#[test]
fn rustls_writes_a_client_hello_naming_the_host() {
    let provider = std::sync::Arc::new(rustls::crypto::ring::default_provider());
    let config = std::sync::Arc::new(
        rustls::ClientConfig::builder_with_provider(provider)
            .with_safe_default_protocol_versions()
            .unwrap()
            .with_root_certificates(rustls::RootCertStore::empty())
            .with_no_client_auth(),
    );
    let hello = client_hello_bytes(&config, "example.com").expect("a ClientHello");
    assert!(is_client_hello(&hello.bytes));
    assert_eq!(&hello.bytes[..3], &[22, 3, 1]);
    let (host, _) = find_sni(&hello.bytes).expect("a server name");
    assert_eq!(host, "example.com");
    assert!(client_hello_bytes(&config, "not a name!").is_none());
}
