//! The shape of WinDivert's per-packet address record, and the ways loading the
//! WinDivert library can fail. Loading the DLL and calling into it happen
//! outside this crate; here is what the logic reads of them.

use vstd::prelude::*;
use vstd::string::StringExecFns;

use crate::text::{decimal, push_decimal};

verus! {

/// WinDivert's `WINDIVERT_ADDRESS`, 64 bytes on the NETWORK layer: an 8-byte
/// timestamp, two 32-bit words and a 48-byte union.
///
/// The header fields Mole reads are kept by name and the trailing union as
/// opaque bytes. WinDivert writes the record wholesale on receive and needs it
/// back unchanged on send, so its size must be the driver's.
#[derive(Clone, Copy)]
pub struct WinDivertAddress {
    pub timestamp: i64,
    /// Packed bitfield word: Layer:8, Event:8, then the flag bits.
    pub flags: u32,
    pub reserved: u32,
    /// NETWORK layer: `IfIdx` at [0..4], `SubIfIdx` at [4..8]. The rest is
    /// other layers' data never touched on NETWORK.
    pub union: [u8; 48],
}


/// The little-endian reading of four bytes.
pub open spec fn le32(b: Seq<u8>) -> int {
    b[0] as int + b[1] as int * 0x100 + b[2] as int * 0x1_0000 + b[3] as int * 0x100_0000
}

/// The big-endian reading of four bytes.
pub open spec fn be32(b: Seq<u8>) -> int {
    b[3] as int + b[2] as int * 0x100 + b[1] as int * 0x1_0000 + b[0] as int * 0x100_0000
}

/// `u32::from_ne_bytes`: the bytes read in this machine's byte order. Which
/// order that is depends on the machine, so only that the result is one of the
/// two readings is stated.
#[verifier::external_body]
fn u32_from_ne_bytes(b: [u8; 4]) -> (r: u32)
    ensures
        r == le32(b@) || r == be32(b@),
{
    u32::from_ne_bytes(b)
}

impl WinDivertAddress {
    /// An all-zero address record.
    pub fn zeroed() -> (r: Self)
        ensures
            r.timestamp == 0,
            r.flags == 0,
            r.reserved == 0,
            forall|i: int| 0 <= i < 48 ==> r.union[i] == 0,
    {
        WinDivertAddress { timestamp: 0, flags: 0, reserved: 0, union: [0u8; 48] }
    }

    /// Bit 17 of the flag word: set for packets leaving this machine.
    pub fn is_outbound(&self) -> (r: bool)
        ensures
            r == ((self.flags / 0x2_0000) % 2 == 1),
    {
        let f = self.flags;
        let b = (f >> 17) & 1;
        assert(b == (f / 0x2_0000) % 2) by (bit_vector)
            requires
                b == (f >> 17) & 1,
        ;
        b == 1
    }

    /// Bit 20: the captured packet is IPv6.
    pub fn is_ipv6(&self) -> (r: bool)
        ensures
            r == ((self.flags / 0x10_0000) % 2 == 1),
    {
        let f = self.flags;
        let b = (f >> 20) & 1;
        assert(b == (f / 0x10_0000) % 2) by (bit_vector)
            requires
                b == (f >> 20) & 1,
        ;
        b == 1
    }

    /// The interface index: the first four bytes of the union, in the
    /// machine's byte order.
    pub fn if_idx(&self) -> (r: u32)
        ensures
            r == le32(self.union@.subrange(0, 4)) || r == be32(self.union@.subrange(0, 4)),
    {
        let b = [self.union[0], self.union[1], self.union[2], self.union[3]];
        assert(b@ =~= self.union@.subrange(0, 4));
        u32_from_ne_bytes(b)
    }
}

/// Why the WinDivert library could not be loaded.
pub enum LoadError {
    /// No candidate directory held a `WinDivert.dll`.
    DllNotFound,
    /// The DLL was found but the OS refused to load it (code is `GetLastError`).
    DllNotLoaded { path: String, code: u32 },
    /// The DLL loaded but a required entry point was missing: wrong version.
    MissingSymbol(String),
}

impl LoadError {
    /// What the error says.
    pub fn message(&self) -> (r: String)
        ensures
            r@ == match *self {
                LoadError::DllNotFound => "WinDivert.dll not found next to the executable, in vendor/windivert/x64, or via MOLE_WINDIVERT_DIR"@,
                LoadError::DllNotLoaded { path, code } => "WinDivert.dll at "@ + path@
                    + " could not be loaded (Windows error "@ + decimal(code as nat)
                    + "); is WinDivert64.sys beside it, and is this a 64-bit build?"@,
                LoadError::MissingSymbol(name) => "WinDivert.dll is missing "@ + name@
                    + "; it is an unexpected version"@,
            },
    {
        match self {
            LoadError::DllNotFound => String::from_str(
                "WinDivert.dll not found next to the executable, in vendor/windivert/x64, or via MOLE_WINDIVERT_DIR",
            ),
            LoadError::DllNotLoaded { path, code } => {
                let mut s = String::from_str("WinDivert.dll at ");
                s.append(path.as_str());
                s.append(" could not be loaded (Windows error ");
                push_decimal(&mut s, *code as u128);
                s.append("); is WinDivert64.sys beside it, and is this a 64-bit build?");
                s
            },
            LoadError::MissingSymbol(name) => {
                let mut s = String::from_str("WinDivert.dll is missing ");
                s.append(name.as_str());
                s.append("; it is an unexpected version");
                s
            },
        }
    }
}

} // verus!
