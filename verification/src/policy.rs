//! What must never be touched, and how a target name matches a process.
//!
//! The critical list is the desktop's nervous system: the shell, the
//! compositor, input, audio, security, the terminal the user is typing in,
//! and this app itself. A profile cannot override it.

use vstd::prelude::*;
use crate::text::{byte_len, byte_len_capped, case_only, chars_of, lemma_case_maps, lemma_trim_map, lower, lower_ascii, lower_char, lower_range, upper, upper_char, starts_with, starts_with_str, trim, trim_bounds};
use crate::profile::Os;

verus! {

/// A trailing `.exe` removed, the suffix compared without regard to ASCII
/// case (`.exe`, `.EXE`, `.Exe`, ...).
pub open spec fn strip_exe(s: Seq<char>) -> Seq<char> {
    if has_exe_suffix(s) {
        s.take(s.len() - 4)
    } else {
        s
    }
}

/// Whether `s` ends in `.exe` in any mix of ASCII cases.
pub open spec fn has_exe_suffix(s: Seq<char>) -> bool {
    &&& s.len() >= 4
    &&& s[s.len() - 4] == '.'
    &&& lower_char(s[s.len() - 3]) == 'e'
    &&& lower_char(s[s.len() - 2]) == 'x'
    &&& lower_char(s[s.len() - 1]) == 'e'
}

/// A process name the way users write it: trimmed, without a trailing `.exe`,
/// in ASCII lower case.
pub open spec fn normalized(name: Seq<char>) -> Seq<char> {
    lower(strip_exe(trim(name)))
}


/// Does `target` name a process called `name` whose executable has the file
/// stem `stem`? A 15-byte kernel name also matches a longer target it starts.
pub open spec fn name_matches(target: Seq<char>, name: Seq<char>, stem: Option<Seq<char>>) -> bool {
    let t = normalized(target);
    let n = normalized(name);
    &&& t.len() > 0
    &&& {
        ||| n == t
        ||| (stem is Some && normalized(stem->0) == t)
        ||| (byte_len(n) == 15 && byte_len(t) > 15 && starts_with(t, n))
    }
}

/// Names are compared without regard to ASCII case: a name, its lower-case
/// form and its upper-case form all normalize alike.
pub proof fn lemma_normalize_ignores_case(name: Seq<char>)
    ensures
        normalized(lower(name)) == normalized(name),
        normalized(upper(name)) == normalized(name),
{
    lemma_case_maps();
    let fl = |c: char| lower_char(c);
    let fu = |c: char| upper_char(c);
    assert(lower(name) =~= name.map_values(fl));
    assert(upper(name) =~= name.map_values(fu));
    lemma_normalized_map(name, fl);
    lemma_normalized_map(name, fu);
}

proof fn lemma_normalized_map(name: Seq<char>, f: spec_fn(char) -> char)
    requires
        case_only(f),
    ensures
        normalized(name.map_values(f)) == normalized(name),
{
    lemma_trim_map(name, f);
    let t = trim(name);
    let m = t.map_values(f);
    if t.len() >= 4 {
        assert(lower_char(f(t[t.len() - 4])) == lower_char(t[t.len() - 4]));
        assert(lower_char(f(t[t.len() - 3])) == lower_char(t[t.len() - 3]));
        assert(lower_char(f(t[t.len() - 2])) == lower_char(t[t.len() - 2]));
        assert(lower_char(f(t[t.len() - 1])) == lower_char(t[t.len() - 1]));
        assert((m[m.len() - 4] == '.') == (t[t.len() - 4] == '.'));
    }
    assert(has_exe_suffix(m) == has_exe_suffix(t));
    let u = strip_exe(t);
    assert(strip_exe(m) =~= u.map_values(f));
    assert forall|k: int| 0 <= k < u.len() implies lower(u.map_values(f))[k] == #[trigger] lower(u)[k] by {
        assert(lower_char(f(u[k])) == lower_char(u[k]));
    }
    assert(lower(u.map_values(f)) =~= lower(u));
}

/// A non-empty target names a process whose name, or whose executable's
/// file stem, is the target once both are normalized, whatever the other
/// of the two is; an empty target names nothing; and a target that names a
/// process agrees with its name, its stem, or (for a 15-byte kernel name)
/// starts with its name.
pub proof fn lemma_target_names_process(target: Seq<char>, name: Seq<char>, stem: Option<Seq<char>>)
    ensures
        normalized(target).len() > 0 && normalized(name) == normalized(target) ==> name_matches(target, name, stem),
        normalized(target).len() > 0 && (stem matches Some(s) && normalized(s) == normalized(target)) ==> name_matches(target, name, stem),
        normalized(target).len() == 0 ==> !name_matches(target, name, stem),
        name_matches(target, name, stem) ==> {
            ||| normalized(name) == normalized(target)
            ||| (stem matches Some(s) && normalized(s) == normalized(target))
            ||| (byte_len(normalized(name)) == 15 && starts_with(normalized(target), normalized(name)))
        },
{
}

/// Compare process names the way users write them: case-insensitive, with a
/// trailing `.exe` ignored and surrounding whitespace dropped.
pub fn normalize(name: &str) -> (r: String)
    ensures
        r@ == normalized(name@),
{
    let v = chars_of(name);
    let (start, end) = trim_bounds(&v);
    let ghost t = v@.subrange(start as int, end as int);
    let mut stop = end;
    if end - start >= 4 {
        let a = v[end - 4];
        let b = v[end - 3];
        let c = v[end - 2];
        let d = v[end - 1];
        if a == '.' && lower_ascii(b) == 'e' && lower_ascii(c) == 'x' && lower_ascii(d) == 'e' {
            stop = end - 4;
        }
    }
    assert(strip_exe(t) =~= v@.subrange(start as int, stop as int));
    lower_range(&v, start, stop)
}

/// Does `target` (a profile entry) name this process?
///
/// Linux reports a process name truncated to 15 bytes, so `tracker-miner-fs-3`
/// appears as `tracker-miner-f`; the executable's file stem is checked too.
pub fn matches(target: &str, process_name: &str, exe_stem: Option<&str>) -> (r: bool)
    ensures
        r == name_matches(
            target@,
            process_name@,
            match exe_stem {
                Some(s) => Some(s@),
                None => None,
            },
        ),
{
    let target = normalize(target);
    if target.as_str().unicode_len() == 0 {
        return false;
    }
    let name = normalize(process_name);
    if name == target {
        return true;
    }
    if let Some(stem) = exe_stem {
        let stem = normalize(stem);
        if stem == target {
            return true;
        }
    }
    let name_len = byte_len_capped(&chars_of(name.as_str()), 16);
    let target_len = byte_len_capped(&chars_of(target.as_str()), 16);
    name_len == 15 && target_len > 15 && starts_with_str(target.as_str(), name.as_str())
}


/// The views of a list of string slices.
pub open spec fn views(v: Seq<&str>) -> Seq<Seq<char>> {
    v.map_values(|s: &str| s@)
}
/// This app itself, on every platform.
pub open spec fn common_critical() -> Seq<Seq<char>> {
    seq![
        "computequiet"@,
        "computequiet-e2e"@,
    ]
}
/// The Windows shell, session, security and audio processes.
pub open spec fn windows_critical() -> Seq<Seq<char>> {
    seq![
        "Idle"@,
        "System"@,
        "Registry"@,
        "smss"@,
        "csrss"@,
        "wininit"@,
        "services"@,
        "lsass"@,
        "svchost"@,
        "winlogon"@,
        "fontdrvhost"@,
        "dwm"@,
        "explorer"@,
        "conhost"@,
        "OpenConsole"@,
        "WindowsTerminal"@,
        "powershell"@,
        "pwsh"@,
        "cmd"@,
        "sihost"@,
        "taskhostw"@,
        "RuntimeBroker"@,
        "ShellExperienceHost"@,
        "StartMenuExperienceHost"@,
        "SearchHost"@,
        "TextInputHost"@,
        "TabTip"@,
        "SecurityHealthSystray"@,
        "SecurityHealthService"@,
        "MsMpEng"@,
        "NisSrv"@,
        "Memory Compression"@,
        "audiodg"@,
        "WmiPrvSE"@,
        "dllhost"@,
        "ctfmon"@,
        "ApplicationFrameHost"@,
        "SystemSettings"@,
        "SystemSettingsBroker"@,
        "backgroundTaskHost"@,
        "LockApp"@,
        "LogonUI"@,
        "ShellHost"@,
        "CredentialUIBroker"@,
        "consent"@,
        "nvcontainer"@,
        "NVDisplay.Container"@,
        "steam"@,
        "steamwebhelper"@,
        "msedgewebview2"@,
    ]
}
/// The Linux init, session, compositor, audio, network and terminal processes.
pub open spec fn linux_critical() -> Seq<Seq<char>> {
    seq![
        "systemd"@,
        "init"@,
        "dbus-daemon"@,
        "dbus-broker"@,
        "dbus-broker-lau"@,
        "Xorg"@,
        "Xwayland"@,
        "gnome-shell"@,
        "gnome-session-b"@,
        "gnome-session-binary"@,
        "gsd-media-keys"@,
        "kwin_wayland"@,
        "kwin_x11"@,
        "plasmashell"@,
        "kded5"@,
        "kded6"@,
        "ksmserver"@,
        "Hyprland"@,
        "sway"@,
        "pipewire"@,
        "pipewire-pulse"@,
        "wireplumber"@,
        "pulseaudio"@,
        "NetworkManager"@,
        "wpa_supplicant"@,
        "gdm"@,
        "gdm-session-wor"@,
        "sddm"@,
        "lightdm"@,
        "xdg-desktop-por"@,
        "xdg-desktop-portal"@,
        "gnome-terminal-"@,
        "gnome-terminal-server"@,
        "konsole"@,
        "alacritty"@,
        "kitty"@,
        "foot"@,
        "bash"@,
        "zsh"@,
        "fish"@,
    ]
}
/// The macOS kernel, window server, session and terminal processes.
pub open spec fn macos_critical() -> Seq<Seq<char>> {
    seq![
        "launchd"@,
        "kernel_task"@,
        "WindowServer"@,
        "loginwindow"@,
        "Finder"@,
        "Dock"@,
        "SystemUIServer"@,
        "ControlCenter"@,
        "NotificationCenter"@,
        "coreaudiod"@,
        "securityd"@,
        "cfprefsd"@,
        "distnoted"@,
        "Terminal"@,
        "iTerm2"@,
        "zsh"@,
        "bash"@,
    ]
}

/// Every name that is never to be disturbed on `os`.
pub open spec fn critical_names(os: Os) -> Seq<Seq<char>> {
    common_critical() + match os {
        Os::Windows => windows_critical(),
        Os::Linux => linux_critical(),
        Os::MacOs => macos_critical(),
    }
}

/// `name` is on the critical list of `os`, compared as `normalized` names.
pub open spec fn critical(name: Seq<char>, os: Os) -> bool {
    exists|i: int| 0 <= i < critical_names(os).len() && #[trigger] normalized(critical_names(os)[i]) == normalized(name)
}

fn common_critical_list() -> (v: Vec<&'static str>)
    ensures
        views(v@) == common_critical(),
{
    let v = vec![
        "computequiet",
        "computequiet-e2e",
    ];
    assert(views(v@) =~= common_critical());
    v
}

fn windows_critical_list() -> (v: Vec<&'static str>)
    ensures
        views(v@) == windows_critical(),
{
    let v = vec![
        "Idle",
        "System",
        "Registry",
        "smss",
        "csrss",
        "wininit",
        "services",
        "lsass",
        "svchost",
        "winlogon",
        "fontdrvhost",
        "dwm",
        "explorer",
        "conhost",
        "OpenConsole",
        "WindowsTerminal",
        "powershell",
        "pwsh",
        "cmd",
        "sihost",
        "taskhostw",
        "RuntimeBroker",
        "ShellExperienceHost",
        "StartMenuExperienceHost",
        "SearchHost",
        "TextInputHost",
        "TabTip",
        "SecurityHealthSystray",
        "SecurityHealthService",
        "MsMpEng",
        "NisSrv",
        "Memory Compression",
        "audiodg",
        "WmiPrvSE",
        "dllhost",
        "ctfmon",
        "ApplicationFrameHost",
        "SystemSettings",
        "SystemSettingsBroker",
        "backgroundTaskHost",
        "LockApp",
        "LogonUI",
        "ShellHost",
        "CredentialUIBroker",
        "consent",
        "nvcontainer",
        "NVDisplay.Container",
        "steam",
        "steamwebhelper",
        "msedgewebview2",
    ];
    assert(views(v@) =~= windows_critical());
    v
}

fn linux_critical_list() -> (v: Vec<&'static str>)
    ensures
        views(v@) == linux_critical(),
{
    let v = vec![
        "systemd",
        "init",
        "dbus-daemon",
        "dbus-broker",
        "dbus-broker-lau",
        "Xorg",
        "Xwayland",
        "gnome-shell",
        "gnome-session-b",
        "gnome-session-binary",
        "gsd-media-keys",
        "kwin_wayland",
        "kwin_x11",
        "plasmashell",
        "kded5",
        "kded6",
        "ksmserver",
        "Hyprland",
        "sway",
        "pipewire",
        "pipewire-pulse",
        "wireplumber",
        "pulseaudio",
        "NetworkManager",
        "wpa_supplicant",
        "gdm",
        "gdm-session-wor",
        "sddm",
        "lightdm",
        "xdg-desktop-por",
        "xdg-desktop-portal",
        "gnome-terminal-",
        "gnome-terminal-server",
        "konsole",
        "alacritty",
        "kitty",
        "foot",
        "bash",
        "zsh",
        "fish",
    ];
    assert(views(v@) =~= linux_critical());
    v
}

fn macos_critical_list() -> (v: Vec<&'static str>)
    ensures
        views(v@) == macos_critical(),
{
    let v = vec![
        "launchd",
        "kernel_task",
        "WindowServer",
        "loginwindow",
        "Finder",
        "Dock",
        "SystemUIServer",
        "ControlCenter",
        "NotificationCenter",
        "coreaudiod",
        "securityd",
        "cfprefsd",
        "distnoted",
        "Terminal",
        "iTerm2",
        "zsh",
        "bash",
    ];
    assert(views(v@) =~= macos_critical());
    v
}

/// Never suspend, close or otherwise disturb.
pub fn is_critical(process_name: &str, os: Os) -> (r: bool)
    ensures
        r == critical(process_name@, os),
{
    let name = normalize(process_name);
    let common = common_critical_list();
    let list = match os {
        Os::Windows => windows_critical_list(),
        Os::Linux => linux_critical_list(),
        Os::MacOs => macos_critical_list(),
    };
    let ghost all = critical_names(os);
    assert(all =~= views(common@) + views(list@));
    let mut i: usize = 0;
    while i < common.len()
        invariant
            i <= common@.len(),
            name@ == normalized(process_name@),
            all == views(common@) + views(list@),
            all == critical_names(os),
            forall|k: int| 0 <= k < i ==> #[trigger] normalized(all[k]) != name@,
        decreases common.len() - i,
    {
        let other = normalize(common[i]);
        if other == name {
            assert(all[i as int] == common@[i as int]@);
            assert(normalized(critical_names(os)[i as int]) == normalized(process_name@));
            return true;
        }
        assert(all[i as int] == common@[i as int]@);
        i = i + 1;
    }
    let mut j: usize = 0;
    while j < list.len()
        invariant
            j <= list@.len(),
            name@ == normalized(process_name@),
            all == views(common@) + views(list@),
            all == critical_names(os),
            forall|k: int| 0 <= k < common@.len() + j ==> #[trigger] normalized(all[k]) != name@,
        decreases list.len() - j,
    {
        let other = normalize(list[j]);
        let ghost at = common@.len() + j;
        assert(all[at] == list@[j as int]@);
        if other == name {
            assert(normalized(critical_names(os)[at]) == normalized(process_name@));
            return true;
        }
        j = j + 1;
    }
    false
}

} // verus!
