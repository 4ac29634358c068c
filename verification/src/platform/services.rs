//! Windows services through the Service Control Manager: how its answers
//! read. Querying needs no rights; stopping and starting need an elevated
//! token, which the manager reports as access denied and this module reports
//! as "needs administrator" so the window can offer the relaunch.

use vstd::prelude::*;
use crate::platform::error::PlatformError;
use crate::snapshot::{ServiceInfo, ServiceState};

verus! {

/// How long a stop or start may take to settle, in seconds.
pub const SETTLE_SECONDS: u64 = 30;

/// `ERROR_SERVICE_DOES_NOT_EXIST`.
pub const SERVICE_DOES_NOT_EXIST: i32 = 1060;

/// A service's state as the Service Control Manager reports it.
#[derive(Debug, Clone, Copy, PartialEq, Eq, Structural)]
pub enum ScmState {
    Stopped,
    StartPending,
    StopPending,
    Running,
    ContinuePending,
    PausePending,
    Paused,
}

/// Running and stopped are themselves; everything between is left alone
/// until it settles.
pub fn translate(state: ScmState) -> (r: ServiceState)
    ensures
        r == match state {
            ScmState::Running => ServiceState::Running,
            ScmState::Stopped => ServiceState::Stopped,
            _ => ServiceState::Transitioning,
        },
{
    match state {
        ScmState::Running => ServiceState::Running,
        ScmState::Stopped => ServiceState::Stopped,
        _ => ServiceState::Transitioning,
    }
}

/// A query never fails: a service that could not be opened or queried is
/// reported as not installed, so the planner skips it with that reason. The
/// display name is the configured one when it could be read.
pub fn query_info(name: &str, status: Option<ScmState>, display_name: Option<String>) -> (r: ServiceInfo)
    ensures
        r.name@ == name@,
        r.display_name@ == match display_name {
            Some(d) => d@,
            None => name@,
        },
        r.state == match status {
            Some(s) => match s {
                ScmState::Running => ServiceState::Running,
                ScmState::Stopped => ServiceState::Stopped,
                _ => ServiceState::Transitioning,
            },
            None => ServiceState::NotInstalled,
        },
{
    let state = match status {
        Some(s) => translate(s),
        None => ServiceState::NotInstalled,
    };
    let display = match display_name {
        Some(d) => d,
        None => String::from_str(name),
    };
    ServiceInfo { name: String::from_str(name), display_name: display, state }
}

/// How a failed call to the manager reads: access denied needs elevation, a
/// missing service is not installed, anything else keeps its cause.
pub fn scm_failure(name: &str, context: &str, code: Option<i32>, source: std::io::Error) -> (e: PlatformError)
    ensures
        code == Some(5i32) ==> e is NeedsElevation,
        code == Some(SERVICE_DOES_NOT_EXIST) ==> (e matches PlatformError::NotInstalled(m) && m@ == name@),
        code != Some(5i32) && code != Some(SERVICE_DOES_NOT_EXIST) ==> (e matches PlatformError::Io { context: c, source: s }
            && c@ == context@ + " "@ + name@ && s == source),
{
    match code {
        Some(5) => PlatformError::NeedsElevation,
        Some(SERVICE_DOES_NOT_EXIST) => PlatformError::NotInstalled(String::from_str(name)),
        _ => {
            let mut c = String::from_str(context);
            c.append(" ");
            c.append(name);
            proof {
                reveal_strlit(" ");
            }
            PlatformError::Io { context: c, source }
        },
    }
}

/// A stop (or start) is needed unless the service is already stopped (or
/// running).
pub fn needs_change(current: ScmState, wanted: ScmState) -> (r: bool)
    ensures
        r == (current != wanted),
{
    current != wanted
}

/// The failure reported when a service does not settle in time.
pub fn settle_timeout(name: &str, wanted: ScmState) -> (e: PlatformError)
    requires
        wanted == ScmState::Running || wanted == ScmState::Stopped,
    ensures
        e matches PlatformError::Other(m) && m@ == "service "@ + name@ + " did not reach "@ + (if wanted == ScmState::Running {
            "Running"@
        } else {
            "Stopped"@
        }) + " within 30s"@,
{
    let mut m = String::from_str("service ");
    m.append(name);
    m.append(" did not reach ");
    m.append(if wanted == ScmState::Running { "Running" } else { "Stopped" });
    m.append(" within 30s");
    proof {
        reveal_strlit("service ");
        reveal_strlit(" did not reach ");
        reveal_strlit("Running");
        reveal_strlit("Stopped");
        reveal_strlit(" within 30s");
    }
    PlatformError::Other(m)
}

} // verus!
