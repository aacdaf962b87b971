//! The measurement engine's decisions.
//!
//! For one blocked target the probe resolves the true address over DoH, tries a
//! TLS handshake once with no help (the control) and once per strategy, and
//! reads the verdict off the replies. The network work happens outside this
//! crate; here is how a reply is classified, what each outcome is called, and
//! how the report is assembled from the outcomes.

use vstd::prelude::*;
use vstd::string::StringExecFns;

use std::sync::Arc;

use crate::dns::{DnsError, Resolver};
use crate::engine::{dotted, push_dotted};
use crate::strategy::Strategy;

verus! {

/// How far one attempt to reach the target got.
#[derive(Clone, Copy, Debug, PartialEq, Eq, Structural)]
pub enum Reach {
    /// The TLS handshake completed: the server name got through.
    TlsReply,
    /// TCP opened but the server never replied to the ClientHello (dropped).
    Silent,
    /// The connection was reset right after the ClientHello (injected).
    Reset,
    /// TCP could not be opened at all: an IP-level block, or the host is down.
    TcpFailed,
    /// Something replied, but not TLS: possibly an injected block page.
    NotTls,
    /// The server answered with TLS, then the connection broke before the
    /// handshake completed.
    Broken,
}

/// How the handshake went on after the server's first TLS record.
#[derive(Clone, Copy, Debug, PartialEq, Eq, Structural)]
pub enum Handshake {
    /// The handshake completed.
    Completed,
    /// The connection failed, timed out or was refused before it completed.
    Broke,
}

/// What reading the first reply bytes gave.
#[derive(Clone, Copy, Debug, PartialEq, Eq)]
pub enum ReadResult {
    /// The peer closed the connection without sending anything.
    Closed,
    /// At least one byte arrived: the first eight bytes of the buffer, zero
    /// past what was read, and how the handshake went on from there.
    Bytes([u8; 8], Handshake),
    /// The read timed out (or would block).
    TimedOut,
    /// The connection was reset.
    ConnectionReset,
    /// Any other read error.
    OtherError,
}

/// How one handshake attempt went, step by step.
#[derive(Clone, Copy, Debug, PartialEq, Eq)]
pub enum Exchange {
    /// No ClientHello could be produced for the host.
    NoHello,
    /// TCP did not connect.
    ConnectFailed,
    /// Writing the ClientHello failed.
    WriteFailed,
    /// The ClientHello went out; this is what reading the reply gave.
    Replied(ReadResult),
}

/// Whether `b` starts a TLS record: content type 21 (alert), 22 (handshake)
/// or 23 (application data), and major version 3.
pub open spec fn starts_tls_record(b: Seq<u8>) -> bool {
    (b[0] == 22 || b[0] == 21 || b[0] == 23) && b[1] == 0x03
}

/// The reach of an attempt. Only a handshake that completes counts as a
/// reply; a TLS record followed by a broken connection does not.
pub open spec fn reach_of(e: Exchange) -> Reach {
    match e {
        Exchange::NoHello => Reach::TcpFailed,
        Exchange::ConnectFailed => Reach::TcpFailed,
        Exchange::WriteFailed => Reach::Reset,
        Exchange::Replied(r) => match r {
            ReadResult::Closed => Reach::Reset,
            ReadResult::Bytes(b, h) => if !starts_tls_record(b@) {
                Reach::NotTls
            } else if h == Handshake::Completed {
                Reach::TlsReply
            } else {
                Reach::Broken
            },
            ReadResult::TimedOut => Reach::Silent,
            ReadResult::ConnectionReset => Reach::Reset,
            ReadResult::OtherError => Reach::Silent,
        },
    }
}

/// Classify one handshake attempt.
pub fn classify(e: Exchange) -> (r: Reach)
    ensures
        r == reach_of(e),
{
    match e {
        Exchange::NoHello => Reach::TcpFailed,
        Exchange::ConnectFailed => Reach::TcpFailed,
        Exchange::WriteFailed => Reach::Reset,
        Exchange::Replied(r) => match r {
            ReadResult::Closed => Reach::Reset,
            ReadResult::Bytes(b, h) => {
                if !((b[0] == 22 || b[0] == 21 || b[0] == 23) && b[1] == 0x03) {
                    Reach::NotTls
                } else if h == Handshake::Completed {
                    Reach::TlsReply
                } else {
                    Reach::Broken
                }
            },
            ReadResult::TimedOut => Reach::Silent,
            ReadResult::ConnectionReset => Reach::Reset,
            ReadResult::OtherError => Reach::Silent,
        },
    }
}

#[verifier::external_type_specification]
#[verifier::external_body]
pub struct ExClientConfig(rustls::ClientConfig);

#[verifier::external_type_specification]
#[verifier::external_body]
pub struct ExClientConnection(rustls::ClientConnection);

/// A client connection that has just produced its ClientHello, and the bytes
/// of that ClientHello as they go on the wire. The connection is kept so the
/// handshake can be carried on with the server's reply.
pub struct Hello {
    pub conn: rustls::ClientConnection,
    pub bytes: Vec<u8>,
}

/// Whether rustls accepts `name` as a server name: a valid DNS name, or the
/// text of an IP address (`ServerName::try_from`).
pub uninterp spec fn is_server_name(name: Seq<char>) -> bool;

/// `ServerName::try_from(host)`, then `ClientConnection::new` and `write_tls`
/// into a buffer, from rustls. The name is made from `host` itself; whether it
/// can be is named by [`is_server_name`], a function of the text alone. A new
/// client connection queues its initial ClientHello at once, in a handshake
/// record (content type 22) whose record version is 0x0301 and whose
/// handshake message is a ClientHello (type 1); `write_tls` hands those bytes
/// out. The rest of the ClientHello (random, key shares, extensions) depends
/// on chance and on `config`, and is not stated here; `None` where a call
/// fails.
#[verifier::external_body]
fn rustls_client_hello(config: &Arc<rustls::ClientConfig>, host: &str) -> (r: Option<Hello>)
    ensures
        r matches Some(h) ==> is_server_name(host@) && h.bytes@.len() >= 6 && h.bytes@[0] == 22
            && h.bytes@[1] == 3 && h.bytes@[2] == 1 && h.bytes@[5] == 1,
        !is_server_name(host@) ==> r is None,
{
    let name = rustls::pki_types::ServerName::try_from(host.to_string()).ok()?;
    let mut conn = rustls::ClientConnection::new(config.clone(), name).ok()?;
    let mut bytes = Vec::new();
    conn.write_tls(&mut bytes).ok()?;
    Some(Hello { conn, bytes })
}

/// A ClientHello for `host`, as rustls writes it for `config`, so real servers
/// answer it; with it, the connection that carries the handshake on. `None`
/// where `host` is not a name rustls accepts, or rustls produces nothing.
pub fn client_hello_bytes(config: &Arc<rustls::ClientConfig>, host: &str) -> (r: Option<Hello>)
    ensures
        r matches Some(h) ==> is_server_name(host@) && h.bytes@.len() >= 6 && h.bytes@[0] == 22
            && h.bytes@[1] == 3 && h.bytes@[5] == 1,
        !is_server_name(host@) ==> r is None,
{
    match rustls_client_hello(config, host) {
        Some(h) => if h.bytes.len() == 0 {
            None
        } else {
            Some(h)
        },
        None => None,
    }
}

/// The sentence that explains a reach.
pub open spec fn reach_text(r: Reach) -> Seq<char> {
    match r {
        Reach::TlsReply => "server replied — the handshake got through"@,
        Reach::Silent => "TCP opened but the server never replied after the ClientHello (dropped by the filter)"@,
        Reach::Reset => "the connection was reset right after the ClientHello (filter injected a RST)"@,
        Reach::TcpFailed => "could not open TCP to the address — an IP-level block or the host is down"@,
        Reach::NotTls => "got a non-TLS reply — possibly an injected block"@,
        Reach::Broken => "the server replied, then the connection broke before the handshake completed"@,
    }
}

/// The sentence that explains a reach, for the report.
pub fn reach_detail(r: Reach) -> (s: String)
    ensures
        s@ == reach_text(r),
{
    match r {
        Reach::TlsReply => String::from_str("server replied — the handshake got through"),
        Reach::Silent => String::from_str(
            "TCP opened but the server never replied after the ClientHello (dropped by the filter)",
        ),
        Reach::Reset => String::from_str(
            "the connection was reset right after the ClientHello (filter injected a RST)",
        ),
        Reach::TcpFailed => String::from_str(
            "could not open TCP to the address — an IP-level block or the host is down",
        ),
        Reach::NotTls => String::from_str("got a non-TLS reply — possibly an injected block"),
        Reach::Broken => String::from_str(
            "the server replied, then the connection broke before the handshake completed",
        ),
    }
}

/// The detail of an attempt whose filter could not be opened.
pub fn filter_failed_detail(error: &str) -> (s: String)
    ensures
        s@ == "could not open filter: "@ + error@,
{
    let mut s = String::from_str("could not open filter: ");
    s.append(error);
    s
}

/// The overall reading, in plain terms.
#[derive(Clone, Copy, Debug, PartialEq, Eq, Structural)]
pub enum Verdict {
    /// The target opened without any help: not blocked on this line.
    NotBlocked,
    /// A strategy got through; the report's winner names it.
    BypassFound,
    /// TCP never opened: an IP-level block a local tool cannot pass.
    IpBlocked,
    /// The DPI blocks it and none of the strategies got through.
    NoBypass,
    /// The target's address could not be resolved.
    DnsFailed,
}

/// What the control attempt alone settles: a reply means not blocked, a TCP
/// that never opens means an IP block; anything else calls for the
/// strategies.
pub fn control_verdict(control: Reach) -> (r: Option<Verdict>)
    ensures
        control == Reach::TlsReply ==> r == Some(Verdict::NotBlocked),
        control == Reach::TcpFailed ==> r == Some(Verdict::IpBlocked),
        control != Reach::TlsReply && control != Reach::TcpFailed ==> r is None,
{
    match control {
        Reach::TlsReply => Some(Verdict::NotBlocked),
        Reach::TcpFailed => Some(Verdict::IpBlocked),
        _ => None,
    }
}

/// One strategy's outcome.
#[derive(Clone, Debug)]
pub struct StrategyResult {
    pub strategy: String,
    pub passed: bool,
    pub detail: String,
    pub elapsed_ms: u128,
}

/// The full result of probing one target.
#[derive(Clone, Debug)]
pub struct ProbeReport {
    pub target: String,
    pub resolver: String,
    pub resolved_ip: Option<String>,
    pub verdict: Verdict,
    pub winner: Option<String>,
    /// A conflicting DPI-bypass service that was running and skews the numbers.
    pub conflict: Option<String>,
    pub control_detail: String,
    pub results: Vec<StrategyResult>,
}

/// Options for a probe run.
pub struct ProbeOptions {
    pub resolver: Resolver,
    pub strategies: Vec<Strategy>,
    /// How long each connect and read may take, in milliseconds.
    pub timeout_ms: u64,
    /// Stop at the first strategy that gets through. When false every
    /// strategy is measured.
    pub stop_on_first: bool,
}

impl ProbeOptions {
    /// Cloudflare, the default battery, four seconds, stop at the first win.
    pub fn standard() -> (r: ProbeOptions)
        ensures
            r.resolver.name@ == "Cloudflare"@,
            r.strategies@ == crate::strategy::battery(),
            r.timeout_ms == 4000,
            r.stop_on_first,
    {
        ProbeOptions {
            resolver: Resolver::cloudflare(),
            strategies: Strategy::probe_battery(),
            timeout_ms: 4000,
            stop_on_first: true,
        }
    }
}

/// The address to probe, from what the resolver answered: the first A record,
/// or the reason there is none.
pub fn resolved_target(answer: Result<Vec<[u8; 4]>, DnsError>) -> (r: Result<[u8; 4], String>)
    ensures
        match answer {
            Ok(ips) => if ips@.len() > 0 {
                r == Ok::<[u8; 4], String>(ips@[0])
            } else {
                r matches Err(s) && s@ == "the resolver returned no A records"@
            },
            Err(e) => r matches Err(s) && s@ == e.message_text(),
        },
{
    match answer {
        Ok(ips) => {
            if ips.len() > 0 {
                Ok(ips[0])
            } else {
                Err(String::from_str("the resolver returned no A records"))
            }
        },
        Err(e) => Err(e.message()),
    }
}

impl ProbeReport {
    /// A bypass is reported exactly when there is a winner; there is a winner
    /// exactly when some tried strategy passed, and it is the first of them.
    pub open spec fn well_formed(&self) -> bool {
        &&& (self.verdict == Verdict::BypassFound <==> self.winner is Some)
        &&& (self.winner is None <==> forall|i: int|
            0 <= i < self.results@.len() ==> !(#[trigger] self.results@[i]).passed)
        &&& self.winner matches Some(w) ==> exists|i: int|
            0 <= i < self.results@.len() && (#[trigger] self.results@[i]).passed
                && self.results@[i].strategy@ == w@ && forall|j: int|
                0 <= j < i ==> !(#[trigger] self.results@[j]).passed
    }

    /// The report of a target whose address could not be resolved.
    pub fn dns_failed(host: &str, resolver: &str, conflict: Option<String>, detail: &str) -> (r:
        ProbeReport)
        ensures
            r.target@ == host@,
            r.resolver@ == resolver@,
            r.resolved_ip is None,
            r.verdict == Verdict::DnsFailed,
            r.winner is None,
            r.conflict == conflict,
            r.control_detail@ == "DNS resolution failed: "@ + detail@,
            r.results@.len() == 0,
            r.well_formed(),
    {
        let mut d = String::from_str("DNS resolution failed: ");
        d.append(detail);
        ProbeReport {
            target: String::from_str(host),
            resolver: String::from_str(resolver),
            resolved_ip: None,
            verdict: Verdict::DnsFailed,
            winner: None,
            conflict,
            control_detail: d,
            results: Vec::new(),
        }
    }

    /// The report once the control attempt is in: what the control settles,
    /// or no bypass yet while the strategies are still to run.
    pub fn after_control(
        host: &str,
        resolver: &str,
        ip: [u8; 4],
        conflict: Option<String>,
        control: Reach,
        control_detail: String,
    ) -> (r: ProbeReport)
        ensures
            r.target@ == host@,
            r.resolver@ == resolver@,
            r.resolved_ip matches Some(s) && s@ == dotted(ip@),
            r.verdict == match control_verdict_of(control) {
                Some(v) => v,
                None => Verdict::NoBypass,
            },
            r.winner is None,
            r.conflict == conflict,
            r.control_detail == control_detail,
            r.results@.len() == 0,
            r.well_formed(),
    {
        let mut ip_text = String::new();
        push_dotted(&mut ip_text, ip);
        let verdict = match control_verdict(control) {
            Some(v) => v,
            None => Verdict::NoBypass,
        };
        ProbeReport {
            target: String::from_str(host),
            resolver: String::from_str(resolver),
            resolved_ip: Some(ip_text),
            verdict,
            winner: None,
            conflict,
            control_detail,
            results: Vec::new(),
        }
    }

    /// Record one strategy's attempt, how far it got and why. The first
    /// strategy that gets through becomes the winner and the verdict a
    /// bypass; later ones are recorded but do not replace it. Returns whether
    /// to stop trying further strategies.
    pub fn record(
        &mut self,
        label: String,
        reach: Reach,
        detail: String,
        elapsed_ms: u128,
        stop_on_first: bool,
    ) -> (stop: bool)
        ensures
            final(self).results@.len() == old(self).results@.len() + 1,
            forall|i: int|
                0 <= i < old(self).results@.len() ==> final(self).results@[i] == old(self).results@[i],
            final(self).results@.last().strategy@ == label@,
            final(self).results@.last().passed == (reach == Reach::TlsReply),
            final(self).results@.last().detail == detail,
            final(self).results@.last().elapsed_ms == elapsed_ms,
            old(self).winner is Some ==> final(self).winner == old(self).winner,
            old(self).winner is None && reach == Reach::TlsReply ==> (final(self).winner matches Some(
                w,
            ) && w@ == label@),
            old(self).winner is None && reach != Reach::TlsReply ==> final(self).winner is None,
            reach == Reach::TlsReply ==> final(self).verdict == Verdict::BypassFound,
            reach != Reach::TlsReply ==> final(self).verdict == old(self).verdict,
            final(self).target == old(self).target,
            final(self).resolver == old(self).resolver,
            final(self).resolved_ip == old(self).resolved_ip,
            final(self).conflict == old(self).conflict,
            final(self).control_detail == old(self).control_detail,
            stop == (reach == Reach::TlsReply && stop_on_first),
            old(self).well_formed() ==> final(self).well_formed(),
    {
        let passed = reach == Reach::TlsReply;
        let first_win = passed && self.winner.is_none();
        let winner = if first_win {
            Some(label.clone())
        } else {
            None
        };
        let ghost name = label@;
        let result = StrategyResult { strategy: label, passed, detail, elapsed_ms };
        self.results.push(result);
        if first_win {
            self.winner = winner;
        }
        if passed {
            self.verdict = Verdict::BypassFound;
        }
        proof {
            if old(self).well_formed() {
                let k = self.results@.len() - 1;
                let before = old(self).results@;
                assert(forall|i: int| 0 <= i < before.len() ==> self.results@[i] == before[i]);
                if first_win {
                    assert(self.results@[k].passed && self.results@[k].strategy@ == name);
                    assert(forall|j: int| 0 <= j < k ==> !(#[trigger] self.results@[j]).passed) by {
                        assert forall|j: int| 0 <= j < k implies !(#[trigger] self.results@[j]).passed by {
                            assert(self.results@[j] == before[j]);
                        }
                    }
                } else if let Some(w) = old(self).winner {
                    let i = choose|i: int|
                        0 <= i < before.len() && (#[trigger] before[i]).passed
                            && before[i].strategy@ == w@ && forall|j: int|
                            0 <= j < i ==> !(#[trigger] before[j]).passed;
                    assert(self.results@[i] == before[i]);
                    assert forall|j: int| 0 <= j < i implies !(#[trigger] self.results@[j]).passed by {
                        assert(self.results@[j] == before[j]);
                    }
                    assert(!(forall|i: int|
                        0 <= i < self.results@.len() ==> !(#[trigger] self.results@[i]).passed));
                } else {
                    assert forall|i: int| 0 <= i < self.results@.len() implies !(
                    #[trigger] self.results@[i]).passed by {
                        if i < k {
                            assert(self.results@[i] == before[i]);
                        }
                    }
                }
            }
        }
        passed && stop_on_first
    }
}

/// What the control attempt settles, as [`control_verdict`] returns it.
pub open spec fn control_verdict_of(control: Reach) -> Option<Verdict> {
    if control == Reach::TlsReply {
        Some(Verdict::NotBlocked)
    } else if control == Reach::TcpFailed {
        Some(Verdict::IpBlocked)
    } else {
        None
    }
}

/// A shareable record of what worked on one line.
#[derive(Clone, Debug)]
pub struct CommunityReport {
    pub schema: u32,
    pub generated_unix: u64,
    /// The operator's name, present only if the user supplied it.
    pub operator: Option<String>,
    /// A rival DPI tool that was running and may have skewed the results.
    pub conflict: Option<String>,
    /// What the report does and does not contain.
    pub privacy: String,
    pub targets: Vec<ProbeReport>,
}

/// The privacy statement a community report carries.
pub open spec fn privacy_text() -> Seq<char> {
    "Contains only: strategies tried and their results, the blocked targets' own addresses, and an operator name if you supplied one. Contains no personal data — not your public IP, not any site you visited, nothing identifying."@
}

impl CommunityReport {
    /// Assemble a community report (schema 1) from the probe reports.
    pub fn new(
        generated_unix: u64,
        operator: Option<String>,
        conflict: Option<String>,
        targets: Vec<ProbeReport>,
    ) -> (r: CommunityReport)
        ensures
            r.schema == 1,
            r.generated_unix == generated_unix,
            r.operator == operator,
            r.conflict == conflict,
            r.privacy@ == privacy_text(),
            r.targets == targets,
    {
        CommunityReport {
            schema: 1,
            generated_unix,
            operator,
            conflict,
            privacy: String::from_str(
                "Contains only: strategies tried and their results, the blocked targets' own addresses, and an operator name if you supplied one. Contains no personal data — not your public IP, not any site you visited, nothing identifying.",
            ),
            targets,
        }
    }
}

/// How a reachable-looking site was blocked.
#[derive(Clone, Copy, Debug, PartialEq, Eq, Structural)]
pub enum Block {
    /// The connection was reset as soon as the name was seen.
    Reset,
    /// The request got no answer.
    Dropped,
    /// The server answered, then the connection broke.
    Broke,
}

/// Whether a site opens on this line right now.
#[derive(Clone, Debug)]
pub enum Reachable {
    /// The site opened.
    Yes,
    /// The DPI blocks it, in this way.
    Blocked(Block),
    /// TCP never opened: the address itself is blocked.
    IpBlocked,
    /// The name could not be resolved (why).
    DnsFailed(String),
}

/// What a single unaided handshake says of a site: a completed handshake
/// means it opens; a reset, silence, a non-TLS reply or a handshake that broke
/// off means the DPI blocks it (cut off, dropped, or broken); and a TCP that
/// never opens means the address itself is blocked.
pub fn reachable_from(reach: Reach) -> (r: Reachable)
    ensures
        r == match reach {
            Reach::TlsReply => Reachable::Yes,
            Reach::Reset => Reachable::Blocked(Block::Reset),
            Reach::Silent => Reachable::Blocked(Block::Dropped),
            Reach::NotTls => Reachable::Blocked(Block::Broke),
            Reach::Broken => Reachable::Blocked(Block::Broke),
            Reach::TcpFailed => Reachable::IpBlocked,
        },
{
    match reach {
        Reach::TlsReply => Reachable::Yes,
        Reach::Reset => Reachable::Blocked(Block::Reset),
        Reach::Silent => Reachable::Blocked(Block::Dropped),
        Reach::NotTls => Reachable::Blocked(Block::Broke),
        Reach::Broken => Reachable::Blocked(Block::Broke),
        Reach::TcpFailed => Reachable::IpBlocked,
    }
}

} // verus!
