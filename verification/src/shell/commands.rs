//! The decisions behind the window's commands. Each command validates, asks
//! the engine and returns a typed result; nothing the page sends is trusted.

use vstd::prelude::*;
use crate::profile::Os;
use crate::shell::error::AppError;

verus! {

/// The events the window listens to.
pub const EVENT_PROGRESS: &'static str = "quiet-progress";
pub const EVENT_STATE: &'static str = "quiet-state";

#[derive(Debug, Clone)]
pub struct AppInfo {
    pub version: String,
    pub os: Os,
    pub data_dir: String,
    pub debug: bool,
}

/// Starting an elevated copy is refused while quiet: the journal belongs to
/// this process's view of the machine and the new one must start clean.
pub fn relaunch_refusal(quiet: bool) -> (r: Option<AppError>)
    ensures
        quiet ==> (r matches Some(e) && e.code@ == "quiet"@ && e.message@ == "Restore first, then relaunch as administrator"@),
        !quiet ==> r is None,
{
    if quiet {
        Some(AppError::new("quiet", String::from_str("Restore first, then relaunch as administrator")))
    } else {
        None
    }
}

/// The one real exit refuses to leave a half-restored machine behind
/// without saying so: after a restore that left Quiet Mode on, quitting is
/// refused.
pub fn quit_after_restore(still_quiet: bool) -> (r: Result<(), AppError>)
    ensures
        still_quiet ==> (r matches Err(e) && e.code@ == "restore_incomplete"@
            && e.message@ == "Some changes could not be restored; see the log before quitting"@),
        !still_quiet ==> r is Ok,
{
    if still_quiet {
        Err(AppError::new("restore_incomplete", String::from_str("Some changes could not be restored; see the log before quitting")))
    } else {
        Ok(())
    }
}

} // verus!
