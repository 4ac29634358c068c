//! The macOS adapter's decisions: `launchctl` labels for the user's launch
//! agents and its `print` output. Power profiles and cache purges need root
//! on macOS and are reported as unavailable rather than half-done.

use vstd::prelude::*;
use crate::plan::Capabilities;
use crate::platform::error::PlatformError;
use crate::snapshot::ServiceState;
use crate::text::{chars_of, debug_quoted, debug_text, decimal, lines, lines_of, push_decimal, starts_with, strip_prefix_str, trim, trim_str};

verus! {

pub open spec fn label_char(c: char) -> bool {
    ('a' <= c && c <= 'z') || ('A' <= c && c <= 'Z') || ('0' <= c && c <= '9') || c == '.' || c == '-' || c == '_'
}

/// A launchd label: reverse-DNS characters only, never an option.
pub open spec fn label_ok(label: Seq<char>) -> bool {
    &&& label.len() > 0
    &&& label[0] != '-'
    &&& forall|i: int| 0 <= i < label.len() ==> label_char(#[trigger] label[i])
}

pub fn valid_label(label: &str) -> (r: bool)
    ensures
        r == label_ok(label@),
{
    let v = chars_of(label);
    if v.len() == 0 || v[0] == '-' {
        return false;
    }
    let mut i: usize = 0;
    while i < v.len()
        invariant
            i <= v@.len(),
            v@ == label@,
            forall|k: int| 0 <= k < i ==> label_char(#[trigger] v@[k]),
        decreases v.len() - i,
    {
        let c = v[i];
        if !(('a' <= c && c <= 'z') || ('A' <= c && c <= 'Z') || ('0' <= c && c <= '9') || c == '.' || c == '-' || c == '_') {
            return false;
        }
        i = i + 1;
    }
    true
}

/// The first line, from position `i` on, that reads `state = ...` once
/// trimmed, and its value.
pub open spec fn state_line(ls: Seq<Seq<char>>, i: int) -> Option<Seq<char>>
    decreases ls.len() - i,
{
    if i < 0 || i >= ls.len() {
        None
    } else if starts_with(trim(ls[i]), "state = "@) {
        Some(trim(ls[i]).skip(8))
    } else {
        state_line(ls, i + 1)
    }
}

/// The agent's state from `launchctl print`: running only when its first
/// `state = ` line says exactly that.
pub open spec fn print_state(output: Seq<char>) -> ServiceState {
    match state_line(lines_of(output), 0) {
        Some(v) => if trim(v) == "running"@ {
            ServiceState::Running
        } else {
            ServiceState::Stopped
        },
        None => ServiceState::Stopped,
    }
}

pub fn parse_print(output: &str) -> (r: ServiceState)
    ensures
        r == print_state(output@),
{
    let all = lines(output);
    let ghost ls = lines_of(output@);
    let mut i: usize = 0;
    while i < all.len()
        invariant
            i <= all@.len(),
            ls == crate::plan::strings_view(all@),
            ls == lines_of(output@),
            state_line(ls, 0) == state_line(ls, i as int),
        decreases all.len() - i,
    {
        proof {
            reveal_strlit("state = ");
        }
        assert(ls[i as int] == all@[i as int]@);
        let line = trim_str(all[i].as_str());
        if let Some(value) = strip_prefix_str(line.as_str(), "state = ") {
            let v = trim_str(value.as_str());
            assert(line@ == trim(ls[i as int]));
            assert(state_line(ls, i as int) == Some(value@));
            assert(state_line(lines_of(output@), 0) == Some(value@));
            return if v == String::from_str("running") {
                ServiceState::Running
            } else {
                ServiceState::Stopped
            };
        }
        i = i + 1;
    }
    ServiceState::Stopped
}

/// What the macOS adapter can do: the user's launch agents, nothing else.
pub fn capabilities(root: bool) -> (c: Capabilities)
    ensures
        c == (Capabilities { services: true, power: false, memory_purge: false, elevated: root, can_elevate: false }),
{
    Capabilities { services: true, power: false, memory_purge: false, elevated: root, can_elevate: false }
}

/// The user's GUI domain, `gui/<uid>`.
pub fn domain(uid: u32) -> (r: String)
    ensures
        r@ == "gui/"@ + decimal(uid as nat),
{
    let mut r = String::from_str("gui/");
    push_decimal(&mut r, uid as u64);
    r
}

/// A service target in the user's domain, `gui/<uid>/<label>`.
pub fn target(uid: u32, label: &str) -> (r: String)
    ensures
        r@ == "gui/"@ + decimal(uid as nat) + "/"@ + label@,
{
    let mut r = domain(uid);
    r.append("/");
    r.append(label);
    r
}

/// The error for a label `launchctl` must not see.
pub fn bad_label(label: &str) -> (e: PlatformError)
    ensures
        e matches PlatformError::Other(m) && m@ == debug_text(label@) + " is not a launchd label"@,
{
    let mut m = debug_quoted(label);
    m.append(" is not a launchd label");
    PlatformError::Other(m)
}

} // verus!
