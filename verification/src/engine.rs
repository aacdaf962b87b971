//! The live filter engine's decisions.
//!
//! The engine diverts outbound TCP :443, reshapes each ClientHello with the
//! chosen strategy and reinjects everything else untouched. Receiving and
//! sending packets happen outside this crate; here is what it decides for each
//! packet, the filters it opens, and the counters it keeps.

use vstd::prelude::*;
use vstd::string::StringExecFns;

use crate::packet::{is_client_hello, parses, TcpView};
use crate::strategy::{emits_are, spec_apply, Emit, Strategy};
use crate::text::{decimal, push_decimal};
use crate::windivert::{Mode, Packet};

verus! {

/// The `WinDivertOpen` flag that copies packets instead of diverting them.
pub const FLAG_SNIFF: u64 = 0x0001;

/// The `WinDivertOpen` flag that drops what the filter matches.
pub const FLAG_DROP: u64 = 0x0002;

/// The flags `WinDivertOpen` gets for a session in `mode`.
pub fn mode_flags(mode: Mode) -> (r: u64)
    ensures
        r == match mode {
            Mode::Sniff => FLAG_SNIFF,
            Mode::Divert => 0,
            Mode::Drop => (FLAG_SNIFF | FLAG_DROP),
        },
{
    match mode {
        Mode::Sniff => FLAG_SNIFF,
        Mode::Divert => 0,
        Mode::Drop => {
            assert(FLAG_SNIFF | FLAG_DROP == 3) by (bit_vector);
            3
        },
    }
}

/// What the engine does with one diverted packet.
pub enum PacketAction {
    /// A ClientHello: send these packets in its place.
    Shape(Vec<Emit>),
    /// Anything else: reinject it untouched.
    Pass,
}

/// Whether `data` is a TCP packet whose payload starts a ClientHello.
pub open spec fn carries_client_hello(data: Seq<u8>) -> bool {
    parses(data) && exists|v: TcpView|
        #![trigger v.describes(data)]
        v.describes(data) && {
            let p = data.subrange(v.payload_offset as int, data.len() as int);
            p.len() >= 6 && p[0] == 22 && p[5] == 1
        }
}

/// Decide what to do with one diverted packet: reshape a ClientHello with
/// `strategy`, pass anything else through.
pub fn decide(strategy: &Strategy, pkt: &Packet) -> (r: PacketAction)
    requires
        pkt.data@.len() <= 0xFFFF,
    ensures
        match r {
            PacketAction::Shape(emits) => exists|v: TcpView|
                #![trigger v.describes(pkt.data@)]
                v.describes(pkt.data@) && emits_are(
                    emits@,
                    spec_apply(*strategy, pkt.data@, v),
                    pkt.addr,
                ) && {
                    let p = pkt.data@.subrange(v.payload_offset as int, pkt.data@.len() as int);
                    p.len() >= 6 && p[0] == 22 && p[5] == 1
                },
            PacketAction::Pass => !carries_client_hello(pkt.data@),
        },
{
    match TcpView::parse(pkt.data.as_slice()) {
        Some(view) => {
            proof {
                crate::packet::lemma_describes_bounds(view, pkt.data@);
            }
            let payload = view.payload(pkt.data.as_slice());
            if is_client_hello(payload) {
                PacketAction::Shape(strategy.apply(pkt, &view))
            } else {
                proof {
                    assert forall|v: TcpView| #[trigger] v.describes(pkt.data@) implies {
                        let p = pkt.data@.subrange(v.payload_offset as int, pkt.data@.len() as int);
                        !(p.len() >= 6 && p[0] == 22 && p[5] == 1)
                    } by {
                        crate::packet::lemma_describes_unique(view, v, pkt.data@);
                    }
                }
                PacketAction::Pass
            }
        },
        None => PacketAction::Pass,
    }
}

/// Live counters: handshakes reshaped and packets passed through.
pub struct Stats {
    pub handshakes_shaped: u64,
    pub packets_passed: u64,
}

impl Stats {
    /// Both counters at zero.
    pub fn new() -> (r: Stats)
        ensures
            r.handshakes_shaped == 0,
            r.packets_passed == 0,
    {
        Stats { handshakes_shaped: 0, packets_passed: 0 }
    }

    /// Count one reshaped handshake (wrapping, as an atomic add does).
    pub fn shaped(&mut self)
        ensures
            final(self).handshakes_shaped == (old(self).handshakes_shaped + 1) % 0x1_0000_0000_0000_0000,
            final(self).packets_passed == old(self).packets_passed,
    {
        self.handshakes_shaped = self.handshakes_shaped.wrapping_add(1);
    }

    /// Count one packet passed through (wrapping, as an atomic add does).
    pub fn passed(&mut self)
        ensures
            final(self).packets_passed == (old(self).packets_passed + 1) % 0x1_0000_0000_0000_0000,
            final(self).handshakes_shaped == old(self).handshakes_shaped,
    {
        self.packets_passed = self.packets_passed.wrapping_add(1);
    }
}

/// The text of `a.b.c.d`.
pub open spec fn dotted(ip: Seq<u8>) -> Seq<char> {
    decimal(ip[0] as nat) + "."@ + decimal(ip[1] as nat) + "."@ + decimal(ip[2] as nat) + "."@
        + decimal(ip[3] as nat)
}

/// Append `a.b.c.d` to `s`.
pub fn push_dotted(s: &mut String, ip: [u8; 4])
    ensures
        final(s)@ == old(s)@ + dotted(ip@),
{
    push_decimal(s, ip[0] as u128);
    s.append(".");
    push_decimal(s, ip[1] as u128);
    s.append(".");
    push_decimal(s, ip[2] as u128);
    s.append(".");
    push_decimal(s, ip[3] as u128);
    assert(final(s)@ =~= old(s)@ + dotted(ip@));
}

/// The filter the live engine diverts: outbound HTTPS.
pub fn engine_filter() -> (r: String)
    ensures
        r@ == "outbound and tcp.DstPort == 443"@,
{
    String::from_str("outbound and tcp.DstPort == 443")
}

/// The filter that holds QUIC back: outbound UDP :443.
pub fn quic_filter() -> (r: String)
    ensures
        r@ == "outbound and udp.DstPort == 443"@,
{
    String::from_str("outbound and udp.DstPort == 443")
}

/// The filter one probe attempt diverts: HTTPS to the target's address.
pub fn probe_filter(ip: [u8; 4]) -> (r: String)
    ensures
        r@ == "outbound and tcp.DstPort == 443 and ip.DstAddr == "@ + dotted(ip@),
{
    let mut s = String::from_str("outbound and tcp.DstPort == 443 and ip.DstAddr == ");
    push_dotted(&mut s, ip);
    s
}

/// The filter `capture` sniffs: outbound TCP to `port`.
pub fn capture_filter(port: u16) -> (r: String)
    ensures
        r@ == "outbound and tcp.DstPort == "@ + decimal(port as nat),
{
    let mut s = String::from_str("outbound and tcp.DstPort == ");
    push_decimal(&mut s, port as u128);
    s
}

/// What the engine's send loop does after trying to send one reshaped packet.
#[derive(Clone, Copy, Debug, PartialEq, Eq, Structural)]
pub enum EmitStep {
    /// It went out: go on with the next one.
    Next,
    /// Nothing has gone out yet: send the captured packet untouched instead,
    /// so the handshake is never simply dropped, and stop.
    SendCapturedAndStop,
    /// Part of the reshaped handshake already went out and cannot be taken
    /// back cleanly: stop.
    Stop,
}

/// Decide the send loop's next move from whether an earlier reshaped packet
/// went out and whether this one did.
pub fn emit_step(sent_before: bool, sent: bool) -> (r: EmitStep)
    ensures
        sent ==> r == EmitStep::Next,
        !sent && !sent_before ==> r == EmitStep::SendCapturedAndStop,
        !sent && sent_before ==> r == EmitStep::Stop,
{
    if sent {
        EmitStep::Next
    } else if !sent_before {
        EmitStep::SendCapturedAndStop
    } else {
        EmitStep::Stop
    }
}

} // verus!
