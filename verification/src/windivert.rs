//! What a WinDivert session hands over and takes back: the session mode, a
//! captured packet with its address record, and the errors a session reports.
//! Opening the handle and moving packets happen outside this crate.

use vstd::prelude::*;

use vstd::string::StringExecFns;

use crate::ffi::WinDivertAddress;
use crate::text::{decimal, push_decimal};

verus! {

/// How a session treats the packets it matches.
#[derive(Clone, Copy, PartialEq, Eq)]
pub enum Mode {
    /// Copy matching packets out but leave them on the network stack. Nothing
    /// done with the copies can break connectivity: the choice for measuring.
    Sniff,
    /// Divert matching packets out of the stack. Each must be re-injected or
    /// it is dropped. This is how the live filter engine rewrites traffic.
    Divert,
    /// Divert and drop: matching packets vanish. Used to hold back one leg of a
    /// connection (QUIC) so it falls back to a path Mole does handle.
    Drop,
}

/// A captured packet plus the address record needed to re-inject it.
pub struct Packet {
    pub data: Vec<u8>,
    pub addr: WinDivertAddress,
}

/// What a WinDivert session reported.
pub enum WinDivertError {
    /// The filter string contained an interior NUL.
    BadFilter,
    /// `WinDivertOpen` failed. `code` is `GetLastError`.
    Open { code: u32, hint: &'static str },
    Recv(u32),
    Send(u32),
}

/// The Windows error `WinDivertRecv` reports once a shut-down handle is
/// drained (`ERROR_NO_DATA`).
pub const ERROR_NO_DATA: u32 = 232;

/// What a failed `WinDivertOpen` with Windows error `code` most likely means.
pub open spec fn open_hint(code: u32) -> Seq<char> {
    if code == 2 {
        "the driver file WinDivert64.sys is missing next to WinDivert.dll"@
    } else if code == 5 {
        "access denied — Mole must run as administrator"@
    } else if code == 87 {
        "the filter string was rejected by the driver"@
    } else if code == 577 {
        "the driver is not digitally signed / blocked by the OS or an antivirus"@
    } else if code == 1275 {
        "the driver was blocked from loading (often an antivirus network shield)"@
    } else {
        "see the Windows system error code"@
    }
}

impl WinDivertError {
    /// The error for a failed `WinDivertOpen` that left Windows error `code`,
    /// with the hint for that code.
    pub fn open_failed(code: u32) -> (r: WinDivertError)
        ensures
            r matches WinDivertError::Open { code: c, hint } && c == code && hint@ == open_hint(code),
    {
        let hint = if code == 2 {
            "the driver file WinDivert64.sys is missing next to WinDivert.dll"
        } else if code == 5 {
            "access denied — Mole must run as administrator"
        } else if code == 87 {
            "the filter string was rejected by the driver"
        } else if code == 577 {
            "the driver is not digitally signed / blocked by the OS or an antivirus"
        } else if code == 1275 {
            "the driver was blocked from loading (often an antivirus network shield)"
        } else {
            "see the Windows system error code"
        };
        WinDivertError::Open { code, hint }
    }

    /// What a failed `WinDivertRecv` with Windows error `code` means: `None`
    /// when the handle was shut down and drained, a receive error otherwise.
    pub fn recv_failed(code: u32) -> (r: Option<WinDivertError>)
        ensures
            code == ERROR_NO_DATA ==> r is None,
            code != ERROR_NO_DATA ==> (r matches Some(WinDivertError::Recv(c)) && c == code),
    {
        if code == ERROR_NO_DATA {
            None
        } else {
            Some(WinDivertError::Recv(code))
        }
    }

    /// What the error says.
    pub fn message(&self) -> (r: String)
        ensures
            r@ == match *self {
                WinDivertError::BadFilter => "the filter string is not valid"@,
                WinDivertError::Open { code, hint } => "could not open WinDivert (error "@ + decimal(
                    code as nat,
                ) + "): "@ + hint@,
                WinDivertError::Recv(code) => "WinDivertRecv failed (error "@ + decimal(code as nat)
                    + ")"@,
                WinDivertError::Send(code) => "WinDivertSend failed (error "@ + decimal(code as nat)
                    + ")"@,
            },
    {
        match self {
            WinDivertError::BadFilter => String::from_str("the filter string is not valid"),
            WinDivertError::Open { code, hint } => {
                let mut s = String::from_str("could not open WinDivert (error ");
                push_decimal(&mut s, *code as u128);
                s.append("): ");
                s.append(hint);
                s
            },
            WinDivertError::Recv(code) => {
                let mut s = String::from_str("WinDivertRecv failed (error ");
                push_decimal(&mut s, *code as u128);
                s.append(")");
                s
            },
            WinDivertError::Send(code) => {
                let mut s = String::from_str("WinDivertSend failed (error ");
                push_decimal(&mut s, *code as u128);
                s.append(")");
                s
            },
        }
    }
}

} // verus!
