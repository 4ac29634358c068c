//! Start with the operating system.
//!
//! Windows uses a logon task rather than the Run key: a task can start the
//! app with administrator rights without a prompt at every logon, which is
//! what stopping services needs. It is created elevated only when this
//! process is elevated, and the status says which. Linux and macOS use a
//! desktop entry or a launch agent.
//!
//! Whichever mechanism, the entry records this executable, so the toggle
//! refuses to register a copy that lives somewhere temporary: a debug build
//! or a download that will be deleted would leave a login entry to nothing.

use vstd::prelude::*;
use crate::shell::error::AppError;
use crate::text::{contains, contains_str, lower, lower_char, starts_with, starts_with_str};

verus! {

#[derive(Debug, Clone)]
pub struct AutostartStatus {
    pub enabled: bool,
    /// The registered entry will start the app with administrator rights.
    pub elevated: bool,
    /// Whether this process may change the entry at all.
    pub allowed: bool,
    pub reason: Option<String>,
}

/// A path in ASCII lower case with `\` turned into `/`.
pub open spec fn slashed(p: Seq<char>) -> Seq<char> {
    lower(p).map_values(|c: char| if c == '\\' { '/' } else { c })
}

/// `s` without its trailing `/` characters.
pub open spec fn without_trailing_slashes(s: Seq<char>) -> Seq<char>
    decreases s.len(),
{
    if s.len() > 0 && s.last() == '/' {
        without_trailing_slashes(s.drop_last())
    } else {
        s
    }
}

/// Whether `path` lies under the folder `dir`, compared the way the guard
/// compares: lower case, forward slashes, the folder without trailing ones.
pub open spec fn lies_under(path: Seq<char>, dir: Seq<char>) -> bool {
    starts_with(slashed(path), without_trailing_slashes(slashed(dir)))
}

/// Why this executable must not be registered, if it must not. `temp_dir`
/// is the system's temporary folder, `downloads` the user's download folder
/// when there is one, and `needs_appimage` holds on Linux outside an
/// AppImage.
pub open spec fn refusal_reason(exe: Seq<char>, temp_dir: Seq<char>, downloads: Option<Seq<char>>, needs_appimage: bool) -> Option<Seq<char>> {
    let path = slashed(exe);
    if contains(path, "/target/debug/"@) || contains(path, "/target/release/"@) {
        Some("this is a development build, not an installed copy"@)
    } else if slashed(temp_dir).len() > 0 && lies_under(exe, temp_dir) {
        Some("the app is running from a temporary folder"@)
    } else if downloads matches Some(d) && lies_under(exe, d) {
        Some("move the app out of Downloads first"@)
    } else if needs_appimage {
        Some("only the AppImage can register itself to start at login"@)
    } else {
        None
    }
}

/// The path in lower case with forward slashes.
fn slash(p: &str) -> (r: String)
    ensures
        r@ == slashed(p@),
{
    let v = crate::text::chars_of(p);
    let mut r = String::new();
    let mut i: usize = 0;
    while i < v.len()
        invariant
            i <= v@.len(),
            v@ == p@,
            r@ == slashed(v@.take(i as int)),
        decreases v.len() - i,
    {
        let c = crate::text::lower_ascii(v[i]);
        let d = if c == '\\' { '/' } else { c };
        crate::text::push_char(&mut r, d);
        assert(slashed(v@.take(i + 1)) =~= slashed(v@.take(i as int)).push(d));
        i = i + 1;
    }
    assert(v@.take(v@.len() as int) =~= v@);
    r
}

/// The string without its trailing `/` characters.
fn trim_slashes(s: &String) -> (r: String)
    ensures
        r@ == without_trailing_slashes(s@),
{
    let v = crate::text::chars_of(s.as_str());
    let mut end: usize = v.len();
    assert(v@.take(end as int) =~= v@);
    while end > 0 && v[end - 1] == '/'
        invariant
            end <= v@.len(),
            without_trailing_slashes(v@) == without_trailing_slashes(v@.take(end as int)),
        decreases end,
    {
        assert(v@.take(end as int).drop_last() =~= v@.take(end - 1));
        end = end - 1;
    }
    crate::text::range_string(&v, 0, end)
}

/// Whether `path` (already slashed) lies under `dir`.
fn under(path: &String, dir: &str) -> (r: bool)
    ensures
        r == starts_with(path@, without_trailing_slashes(slashed(dir@))),
{
    let d = trim_slashes(&slash(dir));
    starts_with_str(path.as_str(), d.as_str())
}

/// Why this executable must not be registered to start at login, if it
/// must not.
pub fn refusal(exe: &str, temp_dir: &str, downloads: Option<&str>, needs_appimage: bool) -> (r: Option<String>)
    ensures
        match r {
            Some(m) => refusal_reason(exe@, temp_dir@, match downloads { Some(d) => Some(d@), None => None }, needs_appimage) == Some(m@),
            None => refusal_reason(exe@, temp_dir@, match downloads { Some(d) => Some(d@), None => None }, needs_appimage) is None,
        },
{
    let path = slash(exe);
    if contains_str(path.as_str(), "/target/debug/") || contains_str(path.as_str(), "/target/release/") {
        return Some(String::from_str("this is a development build, not an installed copy"));
    }
    let temp = slash(temp_dir);
    if crate::text::chars_of(temp.as_str()).len() > 0 && under(&path, temp_dir) {
        return Some(String::from_str("the app is running from a temporary folder"));
    }
    if let Some(d) = downloads {
        if under(&path, d) {
            return Some(String::from_str("move the app out of Downloads first"));
        }
    }
    if needs_appimage {
        return Some(String::from_str("only the AppImage can register itself to start at login"));
    }
    None
}

/// The status the window shows: whether an entry is registered, whether it
/// runs elevated, and whether this copy may change it.
pub fn status(enabled: bool, elevated: bool, reason: Option<String>) -> (s: AutostartStatus)
    ensures
        s.enabled == enabled,
        s.elevated == elevated,
        s.allowed == reason is None,
        s.reason == reason,
{
    let allowed = reason.is_none();
    AutostartStatus { enabled, elevated, allowed, reason }
}

/// Turning the entry on is refused, with the reason, for a copy that must
/// not be registered; turning it off is always allowed.
pub fn check_change(enabled: bool, reason: Option<String>) -> (r: Result<(), AppError>)
    ensures
        match reason {
            Some(m) => if enabled {
                r matches Err(e) && e.code@ == "autostart_refused"@ && e.message@ == m@
            } else {
                r is Ok
            },
            None => r is Ok,
        },
{
    match reason {
        Some(m) => if enabled {
            Err(AppError::new("autostart_refused", m))
        } else {
            Ok(())
        },
        None => Ok(()),
    }
}

/// The name of the logon task.
pub const TASK: &'static str = "ComputeQuiet";

/// What the logon task runs: this executable, quoted, started to the tray.
pub open spec fn task_command(exe: Seq<char>) -> Seq<char> {
    "\""@ + exe + "\" --hidden"@
}

/// The arguments that create (or replace) the logon task, elevated only
/// when this process is.
pub fn create_task_args(exe: &str, elevated: bool) -> (r: Vec<String>)
    ensures
        r@.len() == 10,
        r@[0]@ == "/Create"@,
        r@[1]@ == "/F"@,
        r@[2]@ == "/TN"@,
        r@[3]@ == "ComputeQuiet"@,
        r@[4]@ == "/SC"@,
        r@[5]@ == "ONLOGON"@,
        r@[6]@ == "/RL"@,
        r@[7]@ == if elevated { "HIGHEST"@ } else { "LIMITED"@ },
        r@[8]@ == "/TR"@,
        r@[9]@ == task_command(exe@),
{
    let mut command = String::from_str("\"");
    command.append(exe);
    command.append("\" --hidden");
    proof {
        reveal_strlit("\"");
        reveal_strlit("\" --hidden");
    }
    let mut r: Vec<String> = Vec::new();
    r.push(String::from_str("/Create"));
    r.push(String::from_str("/F"));
    r.push(String::from_str("/TN"));
    r.push(String::from_str(TASK));
    r.push(String::from_str("/SC"));
    r.push(String::from_str("ONLOGON"));
    r.push(String::from_str("/RL"));
    r.push(String::from_str(if elevated { "HIGHEST" } else { "LIMITED" }));
    r.push(String::from_str("/TR"));
    r.push(command);
    r
}

/// Whether the task's XML says it runs with the highest rights available.
pub fn task_is_elevated(xml: &str) -> (r: bool)
    ensures
        r == contains(xml@, "<RunLevel>HighestAvailable</RunLevel>"@),
{
    contains_str(xml, "<RunLevel>HighestAvailable</RunLevel>")
}

} // verus!
