//! The command line's decisions: which command was asked for, what each
//! command's options say, and the exit code a probe run ends with. Printing,
//! the driver and the network are outside this crate.

use vstd::prelude::*;
use vstd::string::{StringExecFns, StrSliceExecFns};

use crate::engine::{dotted, push_dotted};
use crate::label::parse_label;
use crate::probe::{ProbeReport, StrategyResult, Verdict};
use crate::strategy::Strategy;
use crate::text::{decimal, push_decimal};
use crate::text::{has_prefix, parse_unsigned, parse_unsigned_of, text_is, text_starts_with};

verus! {

/// The texts of `v`.
pub open spec fn texts(v: Seq<String>) -> Seq<Seq<char>> {
    v.map_values(|s: String| s@)
}

/// The text an optional string holds.
pub open spec fn opt_text(o: Option<String>) -> Option<Seq<char>> {
    match o {
        Some(s) => Some(s@),
        None => None,
    }
}

/// The top-level command.
pub enum Command {
    Doctor,
    Capture,
    Dns,
    Probe,
    Apply,
    Install,
    Uninstall,
    Status,
    Test,
    Report,
    /// The service manager starting the service.
    ServiceRun,
    Help,
    /// Anything else: the word given.
    Unknown(String),
}

/// The command word: the first argument, `help` if there is none.
pub open spec fn command_word(args: Seq<String>) -> Seq<char> {
    if args.len() == 0 {
        "help"@
    } else {
        args[0]@
    }
}

/// Which command the arguments (program name excluded) ask for.
pub fn command_of(args: &[String]) -> (r: Command)
    ensures
        ({
            let c = command_word(args@);
            match r {
                Command::Doctor => c == "doctor"@,
                Command::Capture => c == "capture"@,
                Command::Dns => c == "dns"@,
                Command::Probe => c == "probe"@,
                Command::Apply => c == "apply"@,
                Command::Install => c == "install"@,
                Command::Uninstall => c == "uninstall"@,
                Command::Status => c == "status"@,
                Command::Test => c == "test"@,
                Command::Report => c == "report"@,
                Command::ServiceRun => c == "service-run"@,
                Command::Help => c == "help"@ || c == "--help"@ || c == "-h"@,
                Command::Unknown(w) => w@ == c && c != "doctor"@ && c != "capture"@ && c != "dns"@
                    && c != "probe"@ && c != "apply"@ && c != "install"@ && c != "uninstall"@ && c
                    != "status"@ && c != "test"@ && c != "report"@ && c != "service-run"@ && c
                    != "help"@ && c != "--help"@ && c != "-h"@,
            }
        }),
{
    if args.len() == 0 {
        return Command::Help;
    }
    let c = args[0].as_str();
    if text_is(c, "doctor") {
        Command::Doctor
    } else if text_is(c, "capture") {
        Command::Capture
    } else if text_is(c, "dns") {
        Command::Dns
    } else if text_is(c, "probe") {
        Command::Probe
    } else if text_is(c, "apply") {
        Command::Apply
    } else if text_is(c, "install") {
        Command::Install
    } else if text_is(c, "uninstall") {
        Command::Uninstall
    } else if text_is(c, "status") {
        Command::Status
    } else if text_is(c, "test") {
        Command::Test
    } else if text_is(c, "report") {
        Command::Report
    } else if text_is(c, "service-run") {
        Command::ServiceRun
    } else if text_is(c, "help") || text_is(c, "--help") || text_is(c, "-h") {
        Command::Help
    } else {
        Command::Unknown(args[0].clone())
    }
}

/// The number `args[i]` spells, read as `str::parse` reads an integer type
/// whose largest value is `max`; `None` if there is no such argument or it
/// does not read.
pub open spec fn number_at(args: Seq<String>, i: int, max: nat) -> Option<nat> {
    if 0 <= i < args.len() {
        parse_unsigned(args[i]@, max)
    } else {
        None
    }
}

/// What `capture` sniffs: which port, how many handshakes, for how long.
#[derive(Clone, Copy, Debug, PartialEq, Eq, Structural)]
pub struct CaptureOpts {
    pub port: u16,
    pub count: usize,
    pub seconds: u64,
}

/// Port 443, ten handshakes, sixty seconds.
pub open spec fn capture_defaults() -> CaptureOpts {
    CaptureOpts { port: 443, count: 10, seconds: 60 }
}

/// Read `capture`'s options from `args[i..]` on top of `o`: `--port`,
/// `--count` and `--seconds` each take the next argument, which is ignored if
/// it does not read as a number; anything else is an unknown option.
pub open spec fn capture_model(args: Seq<String>, i: int, o: CaptureOpts) -> Result<
    CaptureOpts,
    Seq<char>,
>
    decreases args.len() - i,
{
    if i < 0 || i >= args.len() {
        Ok(o)
    } else {
        let a = args[i]@;
        if a != "--port"@ && a != "--count"@ && a != "--seconds"@ {
            Err(a)
        } else {
            let o2 = if a == "--port"@ {
                CaptureOpts {
                    port: match number_at(args, i + 1, u16::MAX as nat) {
                        Some(v) => v as u16,
                        None => o.port,
                    },
                    count: o.count,
                    seconds: o.seconds,
                }
            } else if a == "--count"@ {
                CaptureOpts {
                    port: o.port,
                    count: match number_at(args, i + 1, usize::MAX as nat) {
                        Some(v) => v as usize,
                        None => o.count,
                    },
                    seconds: o.seconds,
                }
            } else {
                CaptureOpts {
                    port: o.port,
                    count: o.count,
                    seconds: match number_at(args, i + 1, u64::MAX as nat) {
                        Some(v) => v as u64,
                        None => o.seconds,
                    },
                }
            };
            if i + 2 >= args.len() {
                Ok(o2)
            } else {
                capture_model(args, i + 2, o2)
            }
        }
    }
}

/// Read `capture`'s options; the error is the unknown option.
pub fn capture_options(args: &[String]) -> (r: Result<CaptureOpts, String>)
    ensures
        match capture_model(args@, 0, capture_defaults()) {
            Ok(o) => r == Ok::<CaptureOpts, String>(o),
            Err(a) => r matches Err(s) && s@ == a,
        },
{
    let mut o = CaptureOpts { port: 443, count: 10, seconds: 60 };
    let mut i: usize = 0;
    while i < args.len()
        invariant
            i <= args@.len(),
            capture_model(args@, 0, capture_defaults()) == capture_model(args@, i as int, o),
        decreases args@.len() - i,
    {
        let a = args[i].as_str();
        if text_is(a, "--port") {
            if i + 1 < args.len() {
                if let Some(v) = parse_unsigned_of(args[i + 1].as_str(), 0xFFFF) {
                    o.port = v as u16;
                }
            }
        } else if text_is(a, "--count") {
            if i + 1 < args.len() {
                if let Some(v) = parse_unsigned_of(args[i + 1].as_str(), usize::MAX as u64) {
                    o.count = v as usize;
                }
            }
        } else if text_is(a, "--seconds") {
            if i + 1 < args.len() {
                if let Some(v) = parse_unsigned_of(args[i + 1].as_str(), u64::MAX) {
                    o.seconds = v;
                }
            }
        } else {
            return Err(args[i].clone());
        }
        i = if args.len() - i <= 2 {
            args.len()
        } else {
            i + 2
        };
    }
    Ok(o)
}

/// What `dns` was asked: the host (the last bare argument) and whether to
/// use Google rather than Cloudflare.
pub struct DnsArgs {
    pub host: Option<String>,
    pub google: bool,
}

/// Read `dns`'s arguments from `args[i..]`: `--google` and `--cloudflare`
/// pick the resolver (the last one wins), a bare argument is the host (the
/// last one wins), any other `--` option is unknown.
pub open spec fn dns_model(args: Seq<String>, i: int, host: Option<Seq<char>>, google: bool) -> Result<
    (Option<Seq<char>>, bool),
    Seq<char>,
>
    decreases args.len() - i,
{
    if i < 0 || i >= args.len() {
        Ok((host, google))
    } else {
        let a = args[i]@;
        if a == "--google"@ {
            dns_model(args, i + 1, host, true)
        } else if a == "--cloudflare"@ {
            dns_model(args, i + 1, host, false)
        } else if !has_prefix(a, "--"@) {
            dns_model(args, i + 1, Some(a), google)
        } else {
            Err(a)
        }
    }
}

/// Read `dns`'s arguments; the error is the unknown option.
pub fn dns_options(args: &[String]) -> (r: Result<DnsArgs, String>)
    ensures
        match dns_model(args@, 0, None, false) {
            Ok((h, g)) => r matches Ok(d) && opt_text(d.host) == h && d.google == g,
            Err(a) => r matches Err(s) && s@ == a,
        },
{
    let mut host: Option<String> = None;
    let mut google = false;
    let mut i: usize = 0;
    while i < args.len()
        invariant
            i <= args@.len(),
            dns_model(args@, 0, None, false) == dns_model(args@, i as int, opt_text(host), google),
        decreases args@.len() - i,
    {
        let a = args[i].as_str();
        if text_is(a, "--google") {
            google = true;
        } else if text_is(a, "--cloudflare") {
            google = false;
        } else if !text_starts_with(a, "--") {
            host = Some(args[i].clone());
        } else {
            return Err(args[i].clone());
        }
        i = i + 1;
    }
    Ok(DnsArgs { host, google })
}

/// What `probe` was asked: the hosts, the resolver, whether to measure every
/// strategy, and where to write the JSON report.
pub struct ProbeArgs {
    pub hosts: Vec<String>,
    pub google: bool,
    pub all: bool,
    pub json: Option<String>,
}

/// Why a command's arguments were refused.
pub enum ArgError {
    /// An option the command does not know.
    Unknown(String),
    /// `--json` with no path after it.
    MissingPath,
}

/// Read `probe`'s arguments from `args[i..]`: `--google`/`--cloudflare`
/// pick the resolver, `--all` measures every strategy, `--json` takes the
/// next argument as the report's path (an error if there is none), a bare
/// argument is a host, any other `--` option is unknown (`Err(Some(option))`;
/// `Err(None)` is the missing path).
pub open spec fn probe_model(
    args: Seq<String>,
    i: int,
    hosts: Seq<Seq<char>>,
    google: bool,
    all: bool,
    json: Option<Seq<char>>,
) -> Result<(Seq<Seq<char>>, bool, bool, Option<Seq<char>>), Option<Seq<char>>>
    decreases args.len() - i,
{
    if i < 0 || i >= args.len() {
        Ok((hosts, google, all, json))
    } else {
        let a = args[i]@;
        if a == "--google"@ {
            probe_model(args, i + 1, hosts, true, all, json)
        } else if a == "--cloudflare"@ {
            probe_model(args, i + 1, hosts, false, all, json)
        } else if a == "--all"@ {
            probe_model(args, i + 1, hosts, google, true, json)
        } else if a == "--json"@ {
            if i + 1 < args.len() {
                if i + 2 >= args.len() {
                    Ok((hosts, google, all, Some(args[i + 1]@)))
                } else {
                    probe_model(args, i + 2, hosts, google, all, Some(args[i + 1]@))
                }
            } else {
                Err(None)
            }
        } else if !has_prefix(a, "--"@) {
            probe_model(args, i + 1, hosts.push(a), google, all, json)
        } else {
            Err(Some(a))
        }
    }
}

/// Read `probe`'s arguments.
pub fn probe_options(args: &[String]) -> (r: Result<ProbeArgs, ArgError>)
    ensures
        match probe_model(args@, 0, Seq::empty(), false, false, None) {
            Ok((h, g, a, j)) => r matches Ok(p) && texts(p.hosts@) == h && p.google == g && p.all
                == a && opt_text(p.json) == j,
            Err(Some(o)) => r matches Err(ArgError::Unknown(s)) && s@ == o,
            Err(None) => r matches Err(ArgError::MissingPath),
        },
{
    let mut hosts: Vec<String> = Vec::new();
    let mut google = false;
    let mut all = false;
    let mut json: Option<String> = None;
    let mut i: usize = 0;
    assert(texts(hosts@) =~= Seq::<Seq<char>>::empty());
    while i < args.len()
        invariant
            i <= args@.len() + 1,
            probe_model(args@, 0, Seq::empty(), false, false, None) == probe_model(
                args@,
                i as int,
                texts(hosts@),
                google,
                all,
                opt_text(json),
            ),
        decreases args@.len() + 1 - i,
    {
        let a = args[i].as_str();
        if text_is(a, "--google") {
            google = true;
        } else if text_is(a, "--cloudflare") {
            google = false;
        } else if text_is(a, "--all") {
            all = true;
        } else if text_is(a, "--json") {
            if i + 1 < args.len() {
                json = Some(args[i + 1].clone());
                i = i + 1;
            } else {
                return Err(ArgError::MissingPath);
            }
        } else if !text_starts_with(a, "--") {
            let ghost before = hosts@;
            hosts.push(args[i].clone());
            assert(texts(hosts@) =~= texts(before).push(args@[i as int]@));
        } else {
            return Err(ArgError::Unknown(args[i].clone()));
        }
        i = i + 1;
    }
    Ok(ProbeArgs { hosts, google, all, json })
}

/// What `apply` was asked: probe first (`--auto`), hold QUIC back, the hosts
/// to probe, or the strategy label to apply.
pub struct ApplyArgs {
    pub auto: bool,
    pub block_quic: bool,
    pub hosts: Vec<String>,
    pub label: Option<String>,
}

/// Read `apply`'s arguments from `args[i..]`: `--auto` and `--block-quic`
/// set their flags, any other `--` option is unknown, a bare argument is a
/// host once `--auto` was seen and the label (the last one wins) before.
pub open spec fn apply_model(
    args: Seq<String>,
    i: int,
    auto: bool,
    quic: bool,
    hosts: Seq<Seq<char>>,
    label: Option<Seq<char>>,
) -> Result<(bool, bool, Seq<Seq<char>>, Option<Seq<char>>), Seq<char>>
    decreases args.len() - i,
{
    if i < 0 || i >= args.len() {
        Ok((auto, quic, hosts, label))
    } else {
        let a = args[i]@;
        if a == "--auto"@ {
            apply_model(args, i + 1, true, quic, hosts, label)
        } else if a == "--block-quic"@ {
            apply_model(args, i + 1, auto, true, hosts, label)
        } else if has_prefix(a, "--"@) {
            Err(a)
        } else if auto {
            apply_model(args, i + 1, auto, quic, hosts.push(a), label)
        } else {
            apply_model(args, i + 1, auto, quic, hosts, Some(a))
        }
    }
}

/// Read `apply`'s arguments; the error is the unknown option.
pub fn apply_options(args: &[String]) -> (r: Result<ApplyArgs, String>)
    ensures
        match apply_model(args@, 0, false, false, Seq::empty(), None) {
            Ok((au, q, h, l)) => r matches Ok(p) && p.auto == au && p.block_quic == q && texts(
                p.hosts@,
            ) == h && opt_text(p.label) == l,
            Err(a) => r matches Err(s) && s@ == a,
        },
{
    let mut auto = false;
    let mut block_quic = false;
    let mut hosts: Vec<String> = Vec::new();
    let mut label: Option<String> = None;
    let mut i: usize = 0;
    assert(texts(hosts@) =~= Seq::<Seq<char>>::empty());
    while i < args.len()
        invariant
            i <= args@.len(),
            apply_model(args@, 0, false, false, Seq::empty(), None) == apply_model(
                args@,
                i as int,
                auto,
                block_quic,
                texts(hosts@),
                opt_text(label),
            ),
        decreases args@.len() - i,
    {
        let a = args[i].as_str();
        if text_is(a, "--auto") {
            auto = true;
        } else if text_is(a, "--block-quic") {
            block_quic = true;
        } else if text_starts_with(a, "--") {
            return Err(args[i].clone());
        } else if auto {
            let ghost before = hosts@;
            hosts.push(args[i].clone());
            assert(texts(hosts@) =~= texts(before).push(args@[i as int]@));
        } else {
            label = Some(args[i].clone());
        }
        i = i + 1;
    }
    Ok(ApplyArgs { auto, block_quic, hosts, label })
}

/// The targets probed when none are named: sites commonly blocked in Turkey.
pub open spec fn default_targets() -> Seq<Seq<char>> {
    seq!["www.roblox.com"@, "discord.com"@, "www.wikipedia.org"@]
}

/// The hosts to probe: those named, or the default targets if none were.
pub fn targets_or_default(hosts: Vec<String>) -> (r: Vec<String>)
    ensures
        hosts@.len() > 0 ==> r == hosts,
        hosts@.len() == 0 ==> texts(r@) == default_targets(),
{
    if hosts.len() > 0 {
        return hosts;
    }
    let mut r = Vec::new();
    r.push(String::from_str("www.roblox.com"));
    r.push(String::from_str("discord.com"));
    r.push(String::from_str("www.wikipedia.org"));
    assert(texts(r@) =~= default_targets());
    r
}

/// A verdict in a few words.
pub open spec fn verdict_text(v: Verdict) -> Seq<char> {
    match v {
        Verdict::NotBlocked => "not blocked"@,
        Verdict::BypassFound => "bypass found"@,
        Verdict::IpBlocked => "IP-level block"@,
        Verdict::NoBypass => "DPI block, no bypass"@,
        Verdict::DnsFailed => "DNS failed"@,
    }
}

/// A verdict in a few words.
pub fn verdict_word(v: &Verdict) -> (r: &'static str)
    ensures
        r@ == verdict_text(*v),
{
    match v {
        Verdict::NotBlocked => "not blocked",
        Verdict::BypassFound => "bypass found",
        Verdict::IpBlocked => "IP-level block",
        Verdict::NoBypass => "DPI block, no bypass",
        Verdict::DnsFailed => "DNS failed",
    }
}

/// Whether a target opened, with help or without.
pub open spec fn opened(v: Verdict) -> bool {
    v == Verdict::BypassFound || v == Verdict::NotBlocked
}

/// A probe run's exit code: 0 if some target opened, with help or without;
/// 1 if every one stayed blocked.
pub fn probe_exit_code(reports: &[ProbeReport]) -> (code: i32)
    ensures
        code == (if exists|i: int| 0 <= i < reports@.len() && opened(#[trigger] reports@[i].verdict) {
            0i32
        } else {
            1i32
        }),
        code == 0 || code == 1,
        code == 0 <==> exists|i: int|
            0 <= i < reports@.len() && ((#[trigger] reports@[i]).verdict == Verdict::BypassFound
                || reports@[i].verdict == Verdict::NotBlocked),
        forall|i: int|
            0 <= i < reports@.len() && (#[trigger] reports@[i]).verdict == Verdict::BypassFound
                ==> code == 0,
{
    let mut i: usize = 0;
    while i < reports.len()
        invariant
            i <= reports@.len(),
            forall|j: int| 0 <= j < i ==> !opened(#[trigger] reports@[j].verdict),
        decreases reports@.len() - i,
    {
        let v = reports[i].verdict;
        if v == Verdict::BypassFound || v == Verdict::NotBlocked {
            assert(opened(reports@[i as int].verdict));
            return 0;
        }
        i = i + 1;
    }
    1
}

// ── What the commands print ──────────────────────────────────────────────────

/// A pass/fail line of the doctor's report.
pub fn check_line(ok: bool, label: &str, detail: &str) -> (r: String)
    ensures
        r@ == (if ok {
            "[ok]  "@
        } else {
            "[fail]"@
        }) + " "@ + label@ + if detail@.len() == 0 {
            Seq::<char>::empty()
        } else {
            " — "@ + detail@
        },
{
    let mut s = if ok {
        String::from_str("[ok]  ")
    } else {
        String::from_str("[fail]")
    };
    s.append(" ");
    s.append(label);
    if detail.unicode_len() > 0 {
        s.append(" — ");
        s.append(detail);
    } else {
        assert(s@ + Seq::<char>::empty() =~= s@);
    }
    s
}

/// The doctor's description of the first captured packet: where it goes,
/// and the server name if it carries one.
pub fn describe_packet(dst: [u8; 4], port: u16, sni: Option<&str>) -> (r: String)
    ensures
        r@ == dotted(dst@) + ":"@ + decimal(port as nat) + match sni {
            Some(h) => "  SNI "@ + h@,
            None => Seq::<char>::empty(),
        },
{
    let mut s = String::new();
    push_dotted(&mut s, dst);
    s.append(":");
    push_decimal(&mut s, port as u128);
    match sni {
        Some(h) => {
            s.append("  SNI ");
            s.append(h);
        },
        None => {
            assert(s@ + Seq::<char>::empty() =~= s@);
        },
    }
    assert(s@ =~= dotted(dst@) + ":"@ + decimal(port as nat) + match sni {
        Some(h) => "  SNI "@ + h@,
        None => Seq::<char>::empty(),
    });
    s
}

/// Whether `capture` reports a packet: one with a server name, or with at
/// least eight payload bytes (not a bare acknowledgement).
pub fn worth_reporting(has_sni: bool, payload_len: usize) -> (r: bool)
    ensures
        r == (has_sni || payload_len >= 8),
{
    !(!has_sni && payload_len < 8)
}

/// `n` right-aligned in at least three columns.
pub open spec fn right3(n: nat) -> Seq<char> {
    let d = decimal(n);
    if d.len() >= 3 {
        d
    } else {
        Seq::new((3 - d.len()) as nat, |i: int| ' ') + d
    }
}

/// `s` left-aligned in at least `w` columns.
pub open spec fn left_in(s: Seq<char>, w: nat) -> Seq<char> {
    if s.len() >= w {
        s
    } else {
        s + Seq::new((w - s.len()) as nat, |i: int| ' ')
    }
}

/// Append `n` spaces.
fn push_spaces(s: &mut String, n: usize)
    ensures
        final(s)@ == old(s)@ + Seq::new(n as nat, |i: int| ' '),
{
    let ghost start = s@;
    let mut k: usize = 0;
    while k < n
        invariant
            k <= n,
            s@ == start + Seq::new(k as nat, |i: int| ' '),
        decreases n - k,
    {
        s.append(" ");
        proof {
            reveal_strlit(" ");
        }
        assert(s@ =~= start + Seq::new((k + 1) as nat, |i: int| ' '));
        k = k + 1;
    }
}

/// One line of `capture`'s output: the count, where the packet goes, and its
/// server name and where the name sits, or its payload size.
pub fn capture_line(seen: usize, dst: [u8; 4], port: u16, sni: Option<(&str, usize)>, payload_len: usize) -> (r: String)
    ensures
        r@ == right3(seen as nat) + ". "@ + dotted(dst@) + ":"@ + decimal(port as nat) + match sni {
            Some((h, off)) => "  SNI "@ + h@ + "  (name at payload offset "@ + decimal(off as nat) + ")"@,
            None => "  ("@ + decimal(payload_len as nat) + " payload bytes, no SNI)"@,
        },
{
    let mut digits = String::new();
    push_decimal(&mut digits, seen as u128);
    let len = digits.as_str().unicode_len();
    let mut s = String::new();
    if len < 3 {
        push_spaces(&mut s, 3 - len);
    }
    s.append(digits.as_str());
    s.append(". ");
    push_dotted(&mut s, dst);
    s.append(":");
    push_decimal(&mut s, port as u128);
    match sni {
        Some((h, off)) => {
            s.append("  SNI ");
            s.append(h);
            s.append("  (name at payload offset ");
            push_decimal(&mut s, off as u128);
            s.append(")");
        },
        None => {
            s.append("  (");
            push_decimal(&mut s, payload_len as u128);
            s.append(" payload bytes, no SNI)");
        },
    }
    assert(s@ =~= right3(seen as nat) + ". "@ + dotted(dst@) + ":"@ + decimal(port as nat) + match sni {
        Some((h, off)) => "  SNI "@ + h@ + "  (name at payload offset "@ + decimal(off as nat) + ")"@,
        None => "  ("@ + decimal(payload_len as nat) + " payload bytes, no SNI)"@,
    });
    s
}

/// One strategy's line in a report, with its mark.
pub open spec fn result_text(mark: Seq<char>, res: StrategyResult) -> Seq<char> {
    "    "@ + mark + " "@ + left_in(res.strategy@, 22) + " "@ + res.detail@ + " ("@ + decimal(
        res.elapsed_ms as nat,
    ) + " ms)"@
}

/// The lines for each strategy tried, marked `✓` for a pass (when passes
/// are marked) and `·` otherwise.
pub open spec fn result_lines(results: Seq<StrategyResult>, mark_passes: bool) -> Seq<Seq<char>>
    decreases results.len(),
{
    if results.len() == 0 {
        Seq::empty()
    } else {
        let res = results.last();
        result_lines(results.drop_last(), mark_passes).push(
            result_text(
                if mark_passes && res.passed {
                    "✓"@
                } else {
                    "·"@
                },
                res,
            ),
        )
    }
}

/// What `probe` prints for one report.
pub open spec fn report_text(r: ProbeReport) -> Seq<Seq<char>> {
    let resolved = "  resolved ("@ + r.resolver@ + ") → "@ + match r.resolved_ip {
        Some(ip) => ip@,
        None => "failed"@,
    };
    let body = match r.verdict {
        Verdict::NotBlocked => seq![
            "  outcome: NOT blocked on this line — the target opened with no help."@,
            "           ("@ + r.control_detail@ + ")"@,
        ],
        Verdict::IpBlocked => seq![
            "  outcome: IP-level block — a local tool cannot pass this."@,
            "           "@ + r.control_detail@,
        ],
        Verdict::DnsFailed => seq![
            "  outcome: could not resolve the target."@,
            "           "@ + r.control_detail@,
        ],
        Verdict::BypassFound => result_lines(r.results@, true) + match r.winner {
            Some(w) => seq!["  outcome: BYPASS FOUND — use `"@ + w@ + "` on this line."@],
            None => Seq::empty(),
        },
        Verdict::NoBypass => result_lines(r.results@, false) + seq![
            "  outcome: DPI blocks it and none of the strategies got through."@,
            "           control: "@ + r.control_detail@,
        ],
    };
    let note = match r.conflict {
        Some(c) => seq!["  note: '"@ + c@ + "' service was running — results may be skewed."@],
        None => Seq::empty(),
    };
    seq![resolved] + body + note
}

/// The line for one strategy tried.
fn result_line(res: &StrategyResult, mark_passes: bool) -> (r: String)
    ensures
        r@ == result_text(
            if mark_passes && res.passed {
                "✓"@
            } else {
                "·"@
            },
            *res,
        ),
{
    let mut s = String::from_str("    ");
    if mark_passes && res.passed {
        s.append("✓");
    } else {
        s.append("·");
    }
    s.append(" ");
    s.append(res.strategy.as_str());
    let len = res.strategy.as_str().unicode_len();
    if len < 22 {
        push_spaces(&mut s, 22 - len);
    }
    s.append(" ");
    s.append(res.detail.as_str());
    s.append(" (");
    push_decimal(&mut s, res.elapsed_ms);
    s.append(" ms)");
    assert(s@ =~= result_text(
        if mark_passes && res.passed {
            "✓"@
        } else {
            "·"@
        },
        *res,
    ));
    s
}

/// Append the line of each strategy tried.
fn push_result_lines(out: &mut Vec<String>, results: &Vec<StrategyResult>, mark_passes: bool)
    ensures
        texts(final(out)@) == texts(old(out)@) + result_lines(results@, mark_passes),
{
    let ghost start = texts(out@);
    let mut i: usize = 0;
    assert(results@.subrange(0, 0) =~= Seq::<StrategyResult>::empty());
    assert(start + Seq::<Seq<char>>::empty() =~= start);
    while i < results.len()
        invariant
            i <= results@.len(),
            texts(out@) == start + result_lines(results@.subrange(0, i as int), mark_passes),
        decreases results@.len() - i,
    {
        let line = result_line(&results[i], mark_passes);
        let ghost before = out@;
        out.push(line);
        proof {
            let sub = results@.subrange(0, i + 1);
            assert(sub.drop_last() =~= results@.subrange(0, i as int));
            assert(texts(out@) =~= texts(before).push(line@));
        }
        i = i + 1;
    }
    assert(results@.subrange(0, results@.len() as int) =~= results@);
}

/// What `probe` prints for one report, line by line.
pub fn report_lines(r: &ProbeReport) -> (out: Vec<String>)
    ensures
        texts(out@) == report_text(*r),
{
    let mut out: Vec<String> = Vec::new();
    let mut first = String::from_str("  resolved (");
    first.append(r.resolver.as_str());
    first.append(") → ");
    match &r.resolved_ip {
        Some(ip) => first.append(ip.as_str()),
        None => first.append("failed"),
    }
    out.push(first);
    let ghost head = texts(out@);
    assert(head =~= seq![first@]);
    match r.verdict {
        Verdict::NotBlocked => {
            let a = String::from_str("  outcome: NOT blocked on this line — the target opened with no help.");
            let mut l = String::from_str("           (");
            l.append(r.control_detail.as_str());
            l.append(")");
            let ghost (av, lv) = (a@, l@);
            out.push(a);
            out.push(l);
            assert(texts(out@) =~= head + seq![av, lv]);
        },
        Verdict::IpBlocked => {
            let a = String::from_str("  outcome: IP-level block — a local tool cannot pass this.");
            let mut l = String::from_str("           ");
            l.append(r.control_detail.as_str());
            let ghost (av, lv) = (a@, l@);
            out.push(a);
            out.push(l);
            assert(texts(out@) =~= head + seq![av, lv]);
        },
        Verdict::DnsFailed => {
            let a = String::from_str("  outcome: could not resolve the target.");
            let mut l = String::from_str("           ");
            l.append(r.control_detail.as_str());
            let ghost (av, lv) = (a@, l@);
            out.push(a);
            out.push(l);
            assert(texts(out@) =~= head + seq![av, lv]);
        },
        Verdict::BypassFound => {
            push_result_lines(&mut out, &r.results, true);
            let ghost mid = texts(out@);
            if let Some(w) = &r.winner {
                let mut l = String::from_str("  outcome: BYPASS FOUND — use `");
                l.append(w.as_str());
                l.append("` on this line.");
                let ghost lv = l@;
                out.push(l);
                assert(texts(out@) =~= mid + seq![lv]);
            } else {
                assert(mid + Seq::<Seq<char>>::empty() =~= mid);
            }
            assert(texts(out@) =~= head + (result_lines(r.results@, true) + match r.winner {
                Some(w) => seq!["  outcome: BYPASS FOUND — use `"@ + w@ + "` on this line."@],
                None => Seq::empty(),
            }));
        },
        Verdict::NoBypass => {
            push_result_lines(&mut out, &r.results, false);
            let ghost mid = texts(out@);
            let a = String::from_str("  outcome: DPI blocks it and none of the strategies got through.");
            let mut l = String::from_str("           control: ");
            l.append(r.control_detail.as_str());
            let ghost (av, lv) = (a@, l@);
            out.push(a);
            out.push(l);
            assert(texts(out@) =~= mid + seq![av, lv]);
            assert(texts(out@) =~= head + (result_lines(r.results@, false) + seq![av, lv]));
        },
    }
    let ghost body_end = texts(out@);
    if let Some(c) = &r.conflict {
        let mut l = String::from_str("  note: '");
        l.append(c.as_str());
        l.append("' service was running — results may be skewed.");
        let ghost lv = l@;
        out.push(l);
        assert(texts(out@) =~= body_end + seq![lv]);
    } else {
        assert(body_end + Seq::<Seq<char>>::empty() =~= body_end);
    }
    assert(texts(out@) =~= report_text(*r));
    out
}

/// Why `apply` has no strategy to use when it is not measuring.
pub enum ChoiceError {
    /// The label given is not a strategy's.
    UnknownLabel(String),
    /// The saved configuration names no strategy this build knows.
    SavedUnreadable(String),
    /// No label was given and no configuration is saved.
    NothingSaved,
}

/// The strategy `apply` uses without measuring: the label given on the
/// command line, else the one in the saved configuration.
pub fn chosen_strategy(label: Option<String>, saved: Option<String>) -> (r: Result<
    Strategy,
    ChoiceError,
>)
    ensures
        match label {
            Some(l) => match parse_label(l@) {
                Some(s) => r == Ok::<Strategy, ChoiceError>(s),
                None => r matches Err(ChoiceError::UnknownLabel(t)) && t == l,
            },
            None => match saved {
                Some(c) => match parse_label(c@) {
                    Some(s) => r == Ok::<Strategy, ChoiceError>(s),
                    None => r matches Err(ChoiceError::SavedUnreadable(t)) && t == c,
                },
                None => r matches Err(ChoiceError::NothingSaved),
            },
        },
{
    match label {
        Some(l) => match Strategy::from_label(l.as_str()) {
            Some(s) => Ok(s),
            None => Err(ChoiceError::UnknownLabel(l)),
        },
        None => match saved {
            Some(c) => match Strategy::from_label(c.as_str()) {
                Some(s) => Ok(s),
                None => Err(ChoiceError::SavedUnreadable(c)),
            },
            None => Err(ChoiceError::NothingSaved),
        },
    }
}

/// What one measured target says when picking a strategy by measuring.
pub enum TargetOutcome {
    /// A strategy got through: its label and the strategy it names.
    Chosen { label: String, strategy: Strategy },
    /// The winner's label names no strategy this build knows.
    Unreadable(String),
    /// Nothing got through on this target.
    NoWinner,
}

/// Read a target's report for the measured choice: its winner, if any, and
/// the strategy that winner names.
pub fn target_outcome(report: &ProbeReport) -> (r: TargetOutcome)
    ensures
        match report.winner {
            None => r is NoWinner,
            Some(w) => match parse_label(w@) {
                Some(s) => r matches TargetOutcome::Chosen { label, strategy } && label == w
                    && strategy == s,
                None => r matches TargetOutcome::Unreadable(t) && t == w,
            },
        },
{
    match &report.winner {
        None => TargetOutcome::NoWinner,
        Some(w) => match Strategy::from_label(w.as_str()) {
            Some(s) => TargetOutcome::Chosen { label: w.clone(), strategy: s },
            None => TargetOutcome::Unreadable(w.clone()),
        },
    }
}

} // verus!
