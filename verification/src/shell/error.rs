//! What a failed command tells the window: a stable code the page can branch
//! on (offer the administrator relaunch, say) and a sentence to show.

use vstd::prelude::*;
use crate::error::{core_message, CoreError};
use crate::platform::error::{platform_message, PlatformError};

verus! {

#[derive(Debug, Clone)]
pub struct AppError {
    pub code: String,
    pub message: String,
}

/// The code the window sees for a platform failure.
pub open spec fn platform_code(e: PlatformError) -> Seq<char> {
    match e {
        PlatformError::NeedsElevation => "needs_elevation"@,
        PlatformError::NotRunning(_) => "not_running"@,
        PlatformError::NotInstalled(_) => "not_installed"@,
        PlatformError::Unsupported(_) => "unsupported"@,
        _ => "platform"@,
    }
}

impl AppError {
    pub fn new(code: &str, message: String) -> (e: AppError)
        ensures
            e.code@ == code@,
            e.message@ == message@,
    {
        AppError { code: String::from_str(code), message }
    }

    /// A domain failure: the state on disk could not be read or written.
    pub fn from_core(error: CoreError) -> (e: AppError)
        ensures
            e.code@ == "state"@,
            core_message(error, e.message@),
    {
        let message = error.message();
        AppError::new("state", message)
    }

    /// A platform failure, classified so the page can act on it.
    pub fn from_platform(error: PlatformError) -> (e: AppError)
        ensures
            e.code@ == platform_code(error),
            platform_message(error, e.message@),
    {
        let code = match &error {
            PlatformError::NeedsElevation => "needs_elevation",
            PlatformError::NotRunning(_) => "not_running",
            PlatformError::NotInstalled(_) => "not_installed",
            PlatformError::Unsupported(_) => "unsupported",
            _ => "platform",
        };
        proof {
            reveal_strlit("needs_elevation");
            reveal_strlit("not_running");
            reveal_strlit("not_installed");
            reveal_strlit("unsupported");
            reveal_strlit("platform");
        }
        AppError::new(code, error.message())
    }

    /// What `Display` shows: the message.
    pub fn text(&self) -> (r: String)
        ensures
            r@ == self.message@,
    {
        self.message.clone()
    }
}

} // verus!
