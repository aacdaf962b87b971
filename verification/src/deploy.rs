//! The uninstall entry Windows lists under Apps: what its values say. Copying
//! the executable, writing the registry and deleting files happen outside this
//! crate.

use vstd::prelude::*;
use vstd::string::StringExecFns;

verus! {

/// The executable's path in double quotes.
pub open spec fn quoted(exe: Seq<char>) -> Seq<char> {
    "\""@ + exe + "\""@
}

/// The values of the uninstall entry for an installed executable.
pub struct UninstallEntry {
    /// The quoted executable, for the icon.
    pub display_icon: String,
    /// The folder it was installed to.
    pub install_location: String,
    /// The command that removes Mole: the quoted executable and `uninstall`.
    pub uninstall_string: String,
    /// The executable's size in KiB, truncated to 32 bits.
    pub estimated_size_kb: u32,
}

/// The uninstall entry for the executable at `exe` in the folder `dir`,
/// `size` bytes large.
pub fn uninstall_entry(exe: &str, dir: &str, size: u64) -> (r: UninstallEntry)
    ensures
        r.display_icon@ == quoted(exe@),
        r.install_location@ == dir@,
        r.uninstall_string@ == quoted(exe@) + " uninstall"@,
        r.estimated_size_kb == (size / 1024) % 0x1_0000_0000,
{
    let mut icon = String::from_str("\"");
    icon.append(exe);
    icon.append("\"");
    let mut cmd = icon.clone();
    cmd.append(" uninstall");
    let kb = size / 1024;
    let kb32 = (kb % 0x1_0000_0000) as u32;
    UninstallEntry {
        display_icon: icon,
        install_location: String::from_str(dir),
        uninstall_string: cmd,
        estimated_size_kb: kb32,
    }
}

} // verus!
