//! Adapter failures, classified so the UI can say the useful thing:
//! "needs administrator" is an action, "not running" is fine, everything
//! else is a message to show.

use vstd::prelude::*;
use crate::error::{caused, with_cause, io_text};
use crate::profile::Os;
use crate::text::{decimal, push_decimal};

verus! {

#[derive(Debug)]
pub enum PlatformError {
    NeedsElevation,
    NotRunning(String),
    NotInstalled(String),
    Unsupported(String),
    Io { context: String, source: std::io::Error },
    Other(String),
}

/// What `io::Error::raw_os_error` gives for an error: the operating
/// system's code that the error was made from, if it was made from one.
pub uninterp spec fn os_code(e: std::io::Error) -> Option<i32>;

/// The operating system's error code, when the error came from one
/// (`io::Error::raw_os_error`, which reads the code stored in the error).
#[verifier::external_body]
fn raw_code(e: &std::io::Error) -> (r: Option<i32>)
    ensures
        r == os_code(*e),
{
    e.raw_os_error()
}


/// The codes that mean "access denied" on `os`: `ERROR_ACCESS_DENIED` on
/// Windows, `EPERM` and `EACCES` on Linux and macOS.
pub open spec fn denies_access(code: Option<i32>, os: Os) -> bool {
    match code {
        Some(c) => match os {
            Os::Windows => c == 5,
            _ => c == 1 || c == 13,
        },
        None => false,
    }
}

pub fn is_access_denied(code: Option<i32>, os: Os) -> (r: bool)
    ensures
        r == denies_access(code, os),
{
    match code {
        Some(c) => match os {
            Os::Windows => c == 5,
            _ => c == 1 || c == 13,
        },
        None => false,
    }
}

/// The fixed text of the elevation error.
pub open spec fn elevation_text() -> Seq<char> {
    "administrator rights are required"@
}

/// Whether `r` is the message of `e`.
pub open spec fn platform_message(e: PlatformError, r: Seq<char>) -> bool {
    match e {
        PlatformError::NeedsElevation => r == elevation_text(),
        PlatformError::NotRunning(x) => r == x@ + " is not running"@,
        PlatformError::NotInstalled(x) => r == x@ + " is not installed"@,
        PlatformError::Unsupported(x) => r == x@,
        PlatformError::Other(x) => r == x@,
        PlatformError::Io { context, .. } => caused(r, context@),
    }
}

impl PlatformError {
    pub fn io(context: String, source: std::io::Error) -> (e: PlatformError)
        ensures
            e matches PlatformError::Io { context: c, source: s } && c@ == context@ && s == source,
    {
        PlatformError::Io { context, source }
    }

    /// Classify an OS error code from a process or service call on `os`:
    /// access denied becomes "needs elevation", anything else keeps its
    /// context and cause.
    pub fn from_os(context: String, source: std::io::Error, os: Os) -> (e: PlatformError)
        ensures
            denies_access(os_code(source), os) ==> e is NeedsElevation,
            !denies_access(os_code(source), os) ==> (e matches PlatformError::Io { context: c, source: s } && c@ == context@ && s == source),
    {
        if is_access_denied(raw_code(&source), os) {
            PlatformError::NeedsElevation
        } else {
            PlatformError::Io { context, source }
        }
    }

    pub fn needs_elevation(&self) -> (r: bool)
        ensures
            r == self is NeedsElevation,
    {
        match self {
            PlatformError::NeedsElevation => true,
            _ => false,
        }
    }

    /// The message shown to the user.
    pub fn message(&self) -> (r: String)
        ensures
            platform_message(*self, r@),
    {
        match self {
            PlatformError::NeedsElevation => String::from_str("administrator rights are required"),
            PlatformError::NotRunning(x) => {
                let mut m = x.clone();
                m.append(" is not running");
                m
            },
            PlatformError::NotInstalled(x) => {
                let mut m = x.clone();
                m.append(" is not installed");
                m
            },
            PlatformError::Unsupported(x) => x.clone(),
            PlatformError::Other(x) => x.clone(),
            PlatformError::Io { context, source } => with_cause(context, io_text(source)),
        }
    }
}

/// Whether `pid` is still the process the journal recorded: `found` is the
/// start time of the process that holds the PID now, if any. A PID that now
/// belongs to another program is reported as not running rather than acted
/// on.
pub fn check_identity(pid: u32, start_time: u64, found: Option<u64>) -> (r: Result<(), PlatformError>)
    ensures
        match found {
            Some(t) => if t == start_time {
                r is Ok
            } else {
                r matches Err(PlatformError::NotRunning(m))
                    && m@ == "PID "@ + decimal(pid as nat) + " (it now belongs to a different program)"@
            },
            None => r matches Err(PlatformError::NotRunning(m)) && m@ == "PID "@ + decimal(pid as nat),
        },
{
    let mut m = String::from_str("PID ");
    push_decimal(&mut m, pid as u64);
    proof {
        reveal_strlit("PID ");
        reveal_strlit(" (it now belongs to a different program)");
    }
    match found {
        Some(t) => if t == start_time {
            Ok(())
        } else {
            m.append(" (it now belongs to a different program)");
            Err(PlatformError::NotRunning(m))
        },
        None => Err(PlatformError::NotRunning(m)),
    }
}

} // verus!
