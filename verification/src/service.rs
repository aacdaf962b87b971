//! Other DPI-bypass tools, and how service-manager failures are reported.
//!
//! The probe needs one fact before it measures: is another DPI-bypass tool (a
//! GoodbyeDPI service, say) already rewriting handshakes? If so, every
//! measurement is contaminated. Asking the service manager whether a service
//! runs happens outside this crate; which names to ask about, in which order,
//! and what the answer means are decided here.

use vstd::prelude::*;
use vstd::string::StringExecFns;

use crate::text::{decimal, push_decimal};

verus! {

/// How many conflicting tools Mole knows by service name.
pub const KNOWN_CONFLICTING_COUNT: usize = 4;

/// The service names of DPI-bypass tools that fight Mole for the same
/// handshakes, in the order they are checked.
pub open spec fn known_conflicting(i: int) -> &'static str {
    if i == 0 {
        "GoodbyeDPI"
    } else if i == 1 {
        "zapret"
    } else if i == 2 {
        "winws"
    } else {
        "ByeDPI"
    }
}

/// The service names of the known conflicting tools, in checking order.
pub fn known_conflicting_services() -> (r: Vec<&'static str>)
    ensures
        r@.len() == KNOWN_CONFLICTING_COUNT,
        forall|i: int| 0 <= i < KNOWN_CONFLICTING_COUNT ==> r@[i] == known_conflicting(i),
{
    let mut v = Vec::new();
    v.push("GoodbyeDPI");
    v.push("zapret");
    v.push("winws");
    v.push("ByeDPI");
    v
}

/// The first known conflicting DPI service that `is_running` reports as
/// running, asking in order and stopping at the first that is.
pub fn conflicting_dpi_service<F: Fn(&'static str) -> bool>(is_running: F) -> (r: Option<
    &'static str,
>)
    requires
        forall|i: int|
            0 <= i < KNOWN_CONFLICTING_COUNT ==> is_running.requires((known_conflicting(i),)),
    ensures
        match r {
            Some(name) => exists|i: int|
                0 <= i < KNOWN_CONFLICTING_COUNT && name == known_conflicting(i)
                    && is_running.ensures((known_conflicting(i),), true) && forall|j: int|
                    0 <= j < i ==> is_running.ensures((known_conflicting(j),), false),
            None => forall|j: int|
                0 <= j < KNOWN_CONFLICTING_COUNT ==> is_running.ensures(
                    (known_conflicting(j),),
                    false,
                ),
        },
{
    let names = known_conflicting_services();
    let mut i: usize = 0;
    while i < names.len()
        invariant
            names@.len() == KNOWN_CONFLICTING_COUNT,
            forall|k: int| 0 <= k < KNOWN_CONFLICTING_COUNT ==> names@[k] == known_conflicting(k),
            forall|k: int|
                0 <= k < KNOWN_CONFLICTING_COUNT ==> is_running.requires((known_conflicting(k),)),
            i <= names@.len(),
            forall|j: int| 0 <= j < i ==> is_running.ensures((known_conflicting(j),), false),
        decreases names@.len() - i,
    {
        let name = names[i];
        assert(name == known_conflicting(i as int));
        if is_running(name) {
            assert(forall|j: int| 0 <= j < i ==> is_running.ensures((known_conflicting(j),), false));
            return Some(name);
        }
        i = i + 1;
    }
    None
}

/// A service-manager call that failed, and the Windows error code it left.
#[derive(Debug)]
pub enum ServiceError {
    Win32 { op: &'static str, code: u32 },
}

/// The hint added to a service-manager error code.
pub open spec fn service_hint(code: u32) -> Seq<char> {
    if code == 5 {
        " (access denied — run as administrator)"@
    } else if code == 1073 {
        " (the service already exists)"@
    } else {
        Seq::empty()
    }
}

impl ServiceError {
    /// The error for `op` failing with Windows error `code`.
    pub fn from_code(op: &'static str, code: u32) -> (r: ServiceError)
        ensures
            r == (ServiceError::Win32 { op, code }),
    {
        ServiceError::Win32 { op, code }
    }

    /// What the error says: `<op> failed (Windows error <code>)`, with a hint
    /// for the codes that have one.
    pub fn message(&self) -> (r: String)
        ensures
            match *self {
                ServiceError::Win32 { op, code } => r@ == op@ + " failed (Windows error "@
                    + decimal(code as nat) + ")"@ + service_hint(code),
            },
    {
        match self {
            ServiceError::Win32 { op, code } => {
                let mut s = String::from_str(op);
                s.append(" failed (Windows error ");
                push_decimal(&mut s, *code as u128);
                s.append(")");
                if *code == 5 {
                    s.append(" (access denied — run as administrator)");
                } else if *code == 1073 {
                    s.append(" (the service already exists)");
                } else {
                    proof {
                        assert(s@ + Seq::<char>::empty() =~= s@);
                    }
                }
                s
            },
        }
    }
}

/// The service manager's state code for a stopped service.
pub const STATE_STOPPED: u32 = 1;

/// The service manager's state code for a running service.
pub const STATE_RUNNING: u32 = 4;

/// The control code that asks a service to stop.
pub const CONTROL_STOP: u32 = 1;

/// The control code sent at system shutdown.
pub const CONTROL_SHUTDOWN: u32 = 5;

/// `OpenService` found no such service.
pub const ERROR_SERVICE_DOES_NOT_EXIST: u32 = 1060;

/// `DeleteService` found the service already marked for deletion.
pub const ERROR_SERVICE_MARKED_FOR_DELETE: u32 = 1072;


/// The command line the service manager runs: the quoted executable and
/// `service-run`.
pub fn service_command_line(exe: &str) -> (r: String)
    ensures
        r@ == "\""@ + exe@ + "\" service-run"@,
{
    let mut s = String::from_str("\"");
    s.append(exe);
    s.append("\" service-run");
    s
}

/// Whether a control code asks the service to stop: a stop, or shutdown.
pub fn is_stop_request(control: u32) -> (r: bool)
    ensures
        r == (control == CONTROL_STOP || control == CONTROL_SHUTDOWN),
{
    control == CONTROL_STOP || control == CONTROL_SHUTDOWN
}

/// The checkpoint to report with a state, and the counter after it: zero
/// for the settled states (running, stopped), the next count for a pending
/// one.
pub fn checkpoint(state: u32, counter: u32) -> (r: (u32, u32))
    requires
        state == STATE_RUNNING || state == STATE_STOPPED || counter < u32::MAX,
    ensures
        state == STATE_RUNNING || state == STATE_STOPPED ==> r == (0u32, counter),
        !(state == STATE_RUNNING || state == STATE_STOPPED) ==> r == ((counter + 1) as u32, (
        counter + 1) as u32),
{
    if state == STATE_RUNNING || state == STATE_STOPPED {
        (0, counter)
    } else {
        (counter + 1, counter + 1)
    }
}

/// What removing the service comes to when `OpenService` failed with
/// `code`: nothing to remove if there is no such service, an error otherwise.
pub fn open_for_removal_failed(code: u32) -> (r: Result<(), ServiceError>)
    ensures
        code == ERROR_SERVICE_DOES_NOT_EXIST ==> r is Ok,
        code != ERROR_SERVICE_DOES_NOT_EXIST ==> r == Err::<(), ServiceError>(
            ServiceError::Win32 { op: "OpenService", code },
        ),
{
    if code == ERROR_SERVICE_DOES_NOT_EXIST {
        Ok(())
    } else {
        Err(ServiceError::from_code("OpenService", code))
    }
}

/// What removing the service comes to once `DeleteService` returned:
/// removed if it was deleted or already marked for deletion, an error with
/// the code it left otherwise.
pub fn removal_result(deleted: bool, code: u32) -> (r: Result<(), ServiceError>)
    ensures
        deleted || code == ERROR_SERVICE_MARKED_FOR_DELETE ==> r is Ok,
        !(deleted || code == ERROR_SERVICE_MARKED_FOR_DELETE) ==> r == Err::<(), ServiceError>(
            ServiceError::Win32 { op: "DeleteService", code },
        ),
{
    if deleted || code == ERROR_SERVICE_MARKED_FOR_DELETE {
        Ok(())
    } else {
        Err(ServiceError::from_code("DeleteService", code))
    }
}

} // verus!
