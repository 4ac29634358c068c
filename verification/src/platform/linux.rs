//! The Linux adapter's decisions: `systemctl` unit names (`user:` selects a
//! user unit) and its `show` output, the `powerprofilesctl` profile, and
//! what the adapter can do at its privilege level.

use vstd::prelude::*;
use crate::plan::{strings_view, Capabilities};
use crate::platform::error::PlatformError;
use crate::snapshot::{PowerPlan, ServiceState};
use crate::text::{
    chars_of, contains, contains_str, debug_quoted, debug_text, lines, lines_of, range_string, starts_with, strip_prefix_str,
    trim, trim_bounds, trim_str,
};

verus! {

/// The characters a unit name may hold besides ASCII letters and digits.
pub open spec fn unit_char(c: char) -> bool {
    ('a' <= c && c <= 'z') || ('A' <= c && c <= 'Z') || ('0' <= c && c <= '9') || c == '-' || c == '_' || c == '.' || c == '@' || c == ':' || c == '\\'
}

/// A unit name that cannot be mistaken for an option.
pub open spec fn valid_unit(unit: Seq<char>) -> bool {
    &&& unit.len() > 0
    &&& unit[0] != '-'
    &&& forall|i: int| 0 <= i < unit.len() ==> unit_char(#[trigger] unit[i])
}

/// `user:name` selects a user unit; the rest is the unit, trimmed.
pub open spec fn unit_parts(name: Seq<char>) -> (bool, Seq<char>) {
    if starts_with(name, "user:"@) {
        (true, trim(name.skip(5)))
    } else {
        (false, trim(name))
    }
}

/// `user:name` selects a user unit. Unit names are validated so they cannot
/// be mistaken for options.
pub fn split_unit(name: &str) -> (r: Result<(bool, String), PlatformError>)
    ensures
        valid_unit(unit_parts(name@).1) ==> (r matches Ok((user, unit)) && user == unit_parts(name@).0 && unit@ == unit_parts(name@).1),
        !valid_unit(unit_parts(name@).1) ==> (r matches Err(PlatformError::Other(m)) && m@ == debug_text(name@) + " is not a systemd unit name"@),
{
    proof {
        reveal_strlit("user:");
    }
    let (user, unit) = match strip_prefix_str(name, "user:") {
        Some(rest) => (true, trim_str(rest.as_str())),
        None => (false, trim_str(name)),
    };
    let v = chars_of(unit.as_str());
    let mut ok = v.len() > 0 && v[0] != '-';
    let mut i: usize = 0;
    while i < v.len()
        invariant
            i <= v@.len(),
            ok == (v@.len() > 0 && v@[0] != '-' && forall|k: int| 0 <= k < i ==> unit_char(#[trigger] v@[k])),
        decreases v.len() - i,
    {
        let c = v[i];
        let good = ('a' <= c && c <= 'z') || ('A' <= c && c <= 'Z') || ('0' <= c && c <= '9') || c == '-' || c == '_' || c == '.' || c == '@' || c == ':' || c == '\\';
        if !good {
            ok = false;
        }
        i = i + 1;
    }
    if ok {
        Ok((user, unit))
    } else {
        let mut m = debug_quoted(name);
        m.append(" is not a systemd unit name");
        Err(PlatformError::Other(m))
    }
}

/// The arguments of a `systemctl` call: the unit comes after `--` so it is
/// never read as an option.
pub open spec fn systemctl_argv(user: bool, verb: Seq<char>, unit: Seq<char>, extra: Seq<Seq<char>>) -> Seq<Seq<char>> {
    (if user { seq!["--user"@] } else { Seq::empty() }) + seq![verb] + extra + seq!["--"@, unit]
}

pub fn systemctl_args(user: bool, verb: &str, unit: &str, extra: &Vec<String>) -> (r: Vec<String>)
    ensures
        strings_view(r@) == systemctl_argv(user, verb@, unit@, strings_view(extra@)),
{
    let mut args: Vec<String> = Vec::new();
    if user {
        args.push(String::from_str("--user"));
    }
    args.push(String::from_str(verb));
    let ghost head = strings_view(args@);
    assert(head =~= (if user { seq!["--user"@] } else { Seq::<Seq<char>>::empty() }) + seq![verb@]);
    let mut i: usize = 0;
    while i < extra.len()
        invariant
            i <= extra@.len(),
            strings_view(args@) == head + strings_view(extra@).take(i as int),
        decreases extra.len() - i,
    {
        let ghost before = args@;
        args.push(extra[i].clone());
        assert(strings_view(args@) =~= strings_view(before).push(extra@[i as int]@));
        assert(strings_view(extra@).take(i + 1) =~= strings_view(extra@).take(i as int).push(extra@[i as int]@));
        i = i + 1;
    }
    assert(strings_view(extra@).take(extra@.len() as int) =~= strings_view(extra@));
    let ghost mid = args@;
    args.push(String::from_str("--"));
    args.push(String::from_str(unit));
    assert(strings_view(args@) =~= strings_view(mid).push("--"@).push(unit@));
    args
}

/// `systemctl` refused for lack of rights: polkit said so.
pub open spec fn systemctl_denied(text: Seq<char>) -> bool {
    contains(text, "Access denied"@) || contains(text, "Interactive authentication required"@)
}

pub fn is_systemctl_denial(text: &str) -> (r: bool)
    ensures
        r == systemctl_denied(text@),
{
    contains_str(text, "Access denied") || contains_str(text, "Interactive authentication required")
}

/// `pkexec` refused: the user did not authorise the purge.
pub open spec fn pkexec_denied(text: Seq<char>) -> bool {
    contains(text, "Not authorized"@) || contains(text, "dismissed"@)
}

pub fn is_pkexec_denial(text: &str) -> (r: bool)
    ensures
        r == pkexec_denied(text@),
{
    contains_str(text, "Not authorized") || contains_str(text, "dismissed")
}

/// The `LoadState`, `ActiveState` and `Description` values of the first `n`
/// lines; a later line overrides an earlier one.
pub open spec fn show_fields(lines: Seq<Seq<char>>, n: int) -> (Seq<char>, Seq<char>, Seq<char>)
    decreases n,
{
    if n <= 0 || n > lines.len() {
        (Seq::empty(), Seq::empty(), Seq::empty())
    } else {
        let (load, active, description) = show_fields(lines, n - 1);
        let line = lines[n - 1];
        if starts_with(line, "LoadState="@) {
            (trim(line.skip(10)), active, description)
        } else if starts_with(line, "ActiveState="@) {
            (load, trim(line.skip(12)), description)
        } else if starts_with(line, "Description="@) {
            (load, active, trim(line.skip(12)))
        } else {
            (load, active, description)
        }
    }
}

/// The state `systemctl show` reports: a unit that is not loaded is not
/// installed; active or reloading is running; inactive or failed is stopped;
/// anything else is on its way.
pub open spec fn show_state(load: Seq<char>, active: Seq<char>) -> ServiceState {
    if load == "not-found"@ || load.len() == 0 {
        ServiceState::NotInstalled
    } else if active == "active"@ || active == "reloading"@ {
        ServiceState::Running
    } else if active == "inactive"@ || active == "failed"@ {
        ServiceState::Stopped
    } else {
        ServiceState::Transitioning
    }
}

/// How `systemctl show` maps to a state: a unit that is not found, or whose
/// load state is missing, is not installed; for a loaded unit, "active" and
/// "reloading" are running, "inactive" and "failed" are stopped (a failed
/// unit is not on its way anywhere), and any other active state is
/// changing.
pub proof fn lemma_show_state_classes(load: Seq<char>, active: Seq<char>)
    ensures
        (load == "not-found"@ || load.len() == 0) ==> show_state(load, active) == ServiceState::NotInstalled,
        !(load == "not-found"@ || load.len() == 0) ==> {
            &&& (active == "active"@ || active == "reloading"@) ==> show_state(load, active) == ServiceState::Running
            &&& (active == "inactive"@ || active == "failed"@) ==> show_state(load, active) == ServiceState::Stopped
            &&& show_state(load, active) == ServiceState::Transitioning
                <==> !(active == "active"@ || active == "reloading"@ || active == "inactive"@ || active == "failed"@)
            &&& show_state(load, active) != ServiceState::NotInstalled
        },
{
    reveal_strlit("active");
    reveal_strlit("reloading");
    reveal_strlit("inactive");
    reveal_strlit("failed");
    assert("active"@.len() != "inactive"@.len());
    assert("active"@[0] != "failed"@[0]);
    assert("reloading"@.len() != "inactive"@.len());
    assert("reloading"@.len() != "failed"@.len());
}

pub fn parse_show(output: &str) -> (r: (ServiceState, String))
    ensures
        ({
            let ls = lines_of(output@);
            let (load, active, description) = show_fields(ls, ls.len() as int);
            r.0 == show_state(load, active) && r.1@ == description
        }),
{
    proof {
        reveal_strlit("LoadState=");
        reveal_strlit("ActiveState=");
        reveal_strlit("Description=");
    }
    let all = lines(output);
    let ghost ls = lines_of(output@);
    let mut load = String::new();
    let mut active = String::new();
    let mut description = String::new();
    let mut i: usize = 0;
    while i < all.len()
        invariant
            i <= all@.len(),
            ls == strings_view(all@),
            (load@, active@, description@) == show_fields(ls, i as int),
        decreases all.len() - i,
    {
        proof {
            reveal_strlit("LoadState=");
            reveal_strlit("ActiveState=");
            reveal_strlit("Description=");
        }
        let line = all[i].as_str();
        assert(ls[i as int] == all@[i as int]@);
        if let Some(value) = strip_prefix_str(line, "LoadState=") {
            load = trim_str(value.as_str());
        } else if let Some(value) = strip_prefix_str(line, "ActiveState=") {
            active = trim_str(value.as_str());
        } else if let Some(value) = strip_prefix_str(line, "Description=") {
            description = trim_str(value.as_str());
        }
        i = i + 1;
    }
    let state = if load == String::from_str("not-found") || load.as_str().unicode_len() == 0 {
        ServiceState::NotInstalled
    } else if active == String::from_str("active") || active == String::from_str("reloading") {
        ServiceState::Running
    } else if active == String::from_str("inactive") || active == String::from_str("failed") {
        ServiceState::Stopped
    } else {
        ServiceState::Transitioning
    };
    (state, description)
}

/// What the Linux adapter can do: services through polkit, the power
/// profile when `powerprofilesctl` is installed, the cache purge as root or
/// through `pkexec`.
pub fn capabilities(root: bool, power_tool: bool, pkexec: bool) -> (c: Capabilities)
    ensures
        c == (Capabilities { services: true, power: power_tool, memory_purge: root || pkexec, elevated: root, can_elevate: false }),
{
    Capabilities { services: true, power: power_tool, memory_purge: root || pkexec, elevated: root, can_elevate: false }
}

/// The profiles `powerprofilesctl set` accepts.
pub open spec fn power_profile(id: Seq<char>) -> bool {
    id == "power-saver"@ || id == "balanced"@ || id == "performance"@
}

pub fn is_power_profile(id: &str) -> (r: bool)
    ensures
        r == power_profile(id@),
{
    let s = String::from_str(id);
    s == String::from_str("power-saver") || s == String::from_str("balanced") || s == String::from_str("performance")
}

/// The active profile from `powerprofilesctl get`: the trimmed output, which
/// is both its id and its name.
pub fn current_profile(output: &str) -> (r: Result<PowerPlan, PlatformError>)
    ensures
        trim(output@).len() == 0 ==> (r matches Err(PlatformError::Other(m)) && m@ == "powerprofilesctl reported no profile"@),
        trim(output@).len() != 0 ==> (r matches Ok(p) && p.id@ == trim(output@) && p.name@ == trim(output@)),
{
    let id = trim_str(output);
    if id.as_str().unicode_len() == 0 {
        return Err(PlatformError::Other(String::from_str("powerprofilesctl reported no profile")));
    }
    Ok(PowerPlan { name: id.clone(), id })
}

/// How the page cache is dropped: written directly as root, through
/// `pkexec` otherwise, or refused without either.
#[derive(Debug, Clone, Copy, PartialEq, Eq, Structural)]
pub enum PurgeRoute {
    Direct,
    Polkit,
    Refused,
}

pub fn purge_route(root: bool, pkexec: bool) -> (r: PurgeRoute)
    ensures
        r == if root { PurgeRoute::Direct } else if pkexec { PurgeRoute::Polkit } else { PurgeRoute::Refused },
{
    if root {
        PurgeRoute::Direct
    } else if pkexec {
        PurgeRoute::Polkit
    } else {
        PurgeRoute::Refused
    }
}

} // verus!
