//! Where state lives.
//!
//! One `ComputeQuiet` directory under the platform's configuration root, or
//! wherever `COMPUTEQUIET_DATA_DIR` points: that override is what makes a
//! portable copy self-contained and lets an acceptance suite run beside an
//! installed app without touching its state.
//!
//! Writes go to a temporary file in the same directory and are renamed into
//! place, so an interrupted save leaves the previous file intact rather than
//! a truncated one.

use vstd::prelude::*;
use crate::error::CoreError;
use crate::text::{chars_of, decimal, push_decimal};

verus! {

pub const DATA_DIR_ENV: &'static str = "COMPUTEQUIET_DATA_DIR";

/// The name of the state directory under the configuration root.
pub const APP_DIR: &'static str = "ComputeQuiet";

/// Where the state directory is.
#[derive(Debug, Clone, PartialEq, Eq)]
pub enum DataDir {
    /// Exactly this directory, from the override.
    Override(String),
    /// The `ComputeQuiet` directory under this configuration root.
    UnderConfig(String),
}

/// The override wins unless it is empty; without it the state lives under
/// the configuration root, and without that there is nowhere to keep it.
pub fn resolve_data_dir(override_dir: Option<&str>, config_root: Option<String>) -> (r: Result<DataDir, CoreError>)
    ensures
        match override_dir {
            Some(d) if d@.len() > 0 => r matches Ok(DataDir::Override(x)) && x@ == d@,
            _ => match config_root {
                Some(root) => r matches Ok(DataDir::UnderConfig(x)) && x@ == root@,
                None => r matches Err(CoreError::NoDataDir),
            },
        },
{
    if let Some(d) = override_dir {
        if chars_of(d).len() > 0 {
            return Ok(DataDir::Override(String::from_str(d)));
        }
    }
    match config_root {
        Some(root) => Ok(DataDir::UnderConfig(root)),
        None => Err(CoreError::NoDataDir),
    }
}

/// The temporary file a save of `file_name` writes first: hidden, beside
/// it, and named after this process so two processes never share one.
pub fn temp_file_name(file_name: &str, pid: u32) -> (r: String)
    ensures
        r@ == "."@ + file_name@ + ".tmp-"@ + decimal(pid as nat),
{
    let mut r = String::from_str(".");
    r.append(file_name);
    r.append(".tmp-");
    push_decimal(&mut r, pid as u64);
    proof {
        reveal_strlit(".");
        reveal_strlit(".tmp-");
    }
    r
}

} // verus!
