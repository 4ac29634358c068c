//! Persistent preferences: the profile plus how the app behaves around it.
//!
//! Absent settings mean defaults. Unreadable settings are an error the user
//! sees, never silently replaced: the file holds their curated target lists.

use vstd::prelude::*;
use crate::error::CoreError;
use crate::profile::{
    default_process_names, default_service_names, is_default_profile, linux_default_processes, linux_default_services,
    macos_default_processes, macos_default_services, windows_default_processes, windows_default_services, Os, ProcessTarget,
    Profile, ServiceTarget,
};
use crate::text::{is_white, trim_end, trim_start, debug_quoted, debug_text, byte_len, byte_len_capped, chars_of, decimal, push_decimal, trim, trim_bounds};

verus! {

pub const SETTINGS_FILE: &'static str = "settings.json";
pub const CURRENT_VERSION: u32 = 1;
pub const MAX_NAME_LEN: u64 = 128;

#[derive(Debug, Clone, Copy, PartialEq, Eq, Default, Structural)]
pub enum Theme {
    #[default]
    System,
    Dark,
    Light,
}

#[derive(Debug, Clone, PartialEq, Eq)]
pub struct Settings {
    pub version: u32,
    pub profile: Profile,
    /// Launch straight to the tray without showing the window.
    pub start_hidden: bool,
    /// Closing the window hides it instead of quitting.
    pub close_to_tray: bool,
    pub theme: Theme,
    pub notifications: bool,
    /// Put everything back automatically when the app quits while quiet.
    pub restore_on_quit: bool,
    /// A quiet run also parks the scan's low-risk finds, without saving them
    /// as targets.
    pub auto_scan: bool,
}

/// Unicode general category `Cc`, what `char::is_control` tests.
pub open spec fn is_control(c: char) -> bool {
    (c as u32) <= 0x1f || (0x7f <= (c as u32) && (c as u32) <= 0x9f)
}


/// What is wrong with a name of the given kind, if anything: after trimming
/// it must be non-empty, at most 128 bytes long, and free of control
/// characters.
pub open spec fn name_problem(kind: Seq<char>, name: Seq<char>) -> Option<Seq<char>> {
    let t = trim(name);
    if t.len() == 0 {
        Some("a "@ + kind + " name is empty"@)
    } else if byte_len(t) > MAX_NAME_LEN {
        Some(kind + " name is longer than "@ + decimal(MAX_NAME_LEN as nat) + " characters"@)
    } else if exists|i: int| 0 <= i < t.len() && is_control(#[trigger] t[i]) {
        Some(kind + " name "@ + debug_text(t) + " contains control characters"@)
    } else {
        None
    }
}

/// Every user-entered name of a profile with its kind: processes, then
/// services, then the keep-alive list.
pub open spec fn profile_names(p: Profile) -> Seq<(Seq<char>, Seq<char>)> {
    p.processes@.map_values(|t: ProcessTarget| ("process"@, t.name@))
        + p.services@.map_values(|t: ServiceTarget| ("service"@, t.name@))
        + p.keep_alive@.map_values(|s: String| ("keep-alive"@, s@))
}

/// The problem with the first bad name of `names[i..]`.
pub open spec fn first_problem(names: Seq<(Seq<char>, Seq<char>)>, i: int) -> Option<Seq<char>>
    decreases names.len() - i,
{
    if i < 0 || i >= names.len() {
        None
    } else {
        match name_problem(names[i].0, names[i].1) {
            Some(m) => Some(m),
            None => first_problem(names, i + 1),
        }
    }
}

/// The settings a fresh install starts with.
pub open spec fn is_default_settings(s: Settings, os: Os) -> bool {
    &&& s.version == CURRENT_VERSION
    &&& is_default_profile(s.profile, os)
    &&& !s.start_hidden
    &&& s.close_to_tray
    &&& s.theme == Theme::System
    &&& s.notifications
    &&& s.restore_on_quit
    &&& !s.auto_scan
}

/// The problem with one name, if any.
fn check_name(kind: &str, name: &str) -> (r: Option<String>)
    ensures
        match r {
            Some(m) => name_problem(kind@, name@) == Some(m@),
            None => name_problem(kind@, name@) is None,
        },
{
    let v = chars_of(name);
    let (start, end) = trim_bounds(&v);
    let ghost t = v@.subrange(start as int, end as int);
    if start == end {
        let mut m = String::from_str("a ");
        m.append(kind);
        m.append(" name is empty");
        return Some(m);
    }
    let mut trimmed: Vec<char> = Vec::new();
    let mut k: usize = start;
    while k < end
        invariant
            start <= k <= end <= v@.len(),
            trimmed@ == v@.subrange(start as int, k as int),
        decreases end - k,
    {
        trimmed.push(v[k]);
        k = k + 1;
        assert(trimmed@ =~= v@.subrange(start as int, k as int));
    }
    if byte_len_capped(&trimmed, MAX_NAME_LEN + 1) > MAX_NAME_LEN {
        let mut m = String::from_str(kind);
        m.append(" name is longer than ");
        push_decimal(&mut m, MAX_NAME_LEN);
        m.append(" characters");
        return Some(m);
    }
    assert(trimmed@ == trim(name@));
    let mut i: usize = 0;
    while i < trimmed.len()
        invariant
            trimmed@ == trim(name@),
            trim(name@).len() != 0,
            byte_len(trim(name@)) <= MAX_NAME_LEN,
            i <= trimmed@.len(),
            forall|q: int| 0 <= q < i ==> !is_control(#[trigger] trimmed@[q]),
        decreases trimmed.len() - i,
    {
        let c = trimmed[i] as u32;
        if c <= 0x1f || (0x7f <= c && c <= 0x9f) {
            assert(trimmed@ == trim(name@));
            assert(is_control(trim(name@)[i as int]));
            let text = crate::text::string_of(&trimmed);
            let mut m = String::from_str(kind);
            m.append(" name ");
            m.append(debug_quoted(text.as_str()).as_str());
            m.append(" contains control characters");
            return Some(m);
        }
        i = i + 1;
    }
    None
}

/// Whether `a` and `b` hold the same preferences.
pub open spec fn same_settings(a: Settings, b: Settings) -> bool {
    &&& a.version == b.version
    &&& a.profile@ == b.profile@
    &&& a.start_hidden == b.start_hidden
    &&& a.close_to_tray == b.close_to_tray
    &&& a.theme == b.theme
    &&& a.notifications == b.notifications
    &&& a.restore_on_quit == b.restore_on_quit
    &&& a.auto_scan == b.auto_scan
}

impl Settings {
    /// Settings with the same contents.
    pub fn copy(&self) -> (r: Settings)
        ensures
            same_settings(r, *self),
    {
        Settings {
            version: self.version,
            profile: self.profile.copy(),
            start_hidden: self.start_hidden,
            close_to_tray: self.close_to_tray,
            theme: self.theme,
            notifications: self.notifications,
            restore_on_quit: self.restore_on_quit,
            auto_scan: self.auto_scan,
        }
    }

    pub fn default_for(os: Os) -> (s: Settings)
        ensures
            is_default_settings(s, os),
    {
        Settings {
            version: CURRENT_VERSION,
            profile: Profile::default_for(os),
            start_hidden: false,
            close_to_tray: true,
            theme: Theme::System,
            notifications: true,
            restore_on_quit: true,
            auto_scan: false,
        }
    }

    /// Names come from a text field in the webview: bound their length, refuse
    /// control characters and empty strings.
    pub fn validate(&self) -> (r: Result<(), CoreError>)
        ensures
            match first_problem(profile_names(self.profile), 0) {
                None => r is Ok,
                Some(m) => r matches Err(CoreError::Invalid(e)) && e@ == m,
            },
    {
        let ghost names = profile_names(self.profile);
        let ghost np = self.profile.processes@.len() as int;
        let ghost ns = self.profile.services@.len() as int;
        let ghost nk = self.profile.keep_alive@.len() as int;
        assert(names.len() == np + ns + nk);
        let mut i: usize = 0;
        while i < self.profile.processes.len()
            invariant
                i <= np,
                names == profile_names(self.profile),
                np == self.profile.processes@.len(),
                names.len() == np + ns + nk,
                first_problem(names, 0) == first_problem(names, i as int),
            decreases self.profile.processes.len() - i,
        {
            assert(names[i as int] == ("process"@, self.profile.processes@[i as int].name@));
            if let Some(m) = check_name("process", self.profile.processes[i].name.as_str()) {
                return Err(CoreError::Invalid(m));
            }
            i = i + 1;
        }
        let mut j: usize = 0;
        while j < self.profile.services.len()
            invariant
                j <= ns,
                names == profile_names(self.profile),
                np == self.profile.processes@.len(),
                ns == self.profile.services@.len(),
                names.len() == np + ns + nk,
                first_problem(names, 0) == first_problem(names, np + j),
            decreases self.profile.services.len() - j,
        {
            assert(names[np + j] == ("service"@, self.profile.services@[j as int].name@));
            if let Some(m) = check_name("service", self.profile.services[j].name.as_str()) {
                return Err(CoreError::Invalid(m));
            }
            j = j + 1;
        }
        let mut k: usize = 0;
        while k < self.profile.keep_alive.len()
            invariant
                k <= nk,
                names == profile_names(self.profile),
                np == self.profile.processes@.len(),
                ns == self.profile.services@.len(),
                nk == self.profile.keep_alive@.len(),
                names.len() == np + ns + nk,
                first_problem(names, 0) == first_problem(names, np + ns + k),
            decreases self.profile.keep_alive.len() - k,
        {
            assert(names[np + ns + k] == ("keep-alive"@, self.profile.keep_alive@[k as int]@));
            if let Some(m) = check_name("keep-alive", self.profile.keep_alive[k].as_str()) {
                return Err(CoreError::Invalid(m));
            }
            k = k + 1;
        }
        Ok(())
    }

    /// What was read from disk, accepted: nothing means the defaults of
    /// `os`; a file from a newer app, or one with a bad name in it, is an
    /// error the user sees. `path` names the file in the message.
    pub fn load(found: Option<Settings>, os: Os, path: &str) -> (r: Result<Settings, CoreError>)
        ensures
            match found {
                None => r matches Ok(s) && is_default_settings(s, os),
                Some(s) => if s.version > CURRENT_VERSION {
                    r matches Err(CoreError::Invalid(m)) && m@ == path@ + " was written by a newer ComputeQuiet (version "@ + decimal(s.version as nat) + ")"@
                } else {
                    match first_problem(profile_names(s.profile), 0) {
                        None => r matches Ok(t) && t == s,
                        Some(m) => r matches Err(CoreError::Invalid(e)) && e@ == m,
                    }
                },
            },
    {
        match found {
            None => Ok(Settings::default_for(os)),
            Some(settings) => {
                if settings.version > CURRENT_VERSION {
                    let mut m = String::from_str(path);
                    m.append(" was written by a newer ComputeQuiet (version ");
                    push_decimal(&mut m, settings.version as u64);
                    m.append(")");
                    return Err(CoreError::Invalid(m));
                }
                match settings.validate() {
                    Ok(()) => Ok(settings),
                    Err(e) => Err(e),
                }
            },
        }
    }
}


/// A name of printable ASCII characters, at most 128 long, that neither
/// starts nor ends with a space: a name that validation accepts.
pub open spec fn plain_name(s: Seq<char>) -> bool {
    &&& 1 <= s.len() <= MAX_NAME_LEN
    &&& s[0] != ' '
    &&& s.last() != ' '
    &&& forall|i: int| 0 <= i < s.len() ==> 0x20 <= (#[trigger] s[i] as u32) && (s[i] as u32) <= 0x7e
}

proof fn lemma_ascii_byte_len(s: Seq<char>)
    requires
        forall|i: int| 0 <= i < s.len() ==> (#[trigger] s[i] as u32) <= 0x7e,
    ensures
        byte_len(s) == s.len(),
    decreases s.len(),
{
    if s.len() > 0 {
        assert((s[s.len() - 1] as u32) <= 0x7e);
        assert(forall|i: int| 0 <= i < s.drop_last().len() ==> s.drop_last()[i] == s[i]);
        lemma_ascii_byte_len(s.drop_last());
    }
}

/// A plain name has no problem, whatever its kind.
proof fn lemma_plain_name_ok(kind: Seq<char>, s: Seq<char>)
    requires
        plain_name(s),
    ensures
        name_problem(kind, s) is None,
{
    assert(s[0] == s[0] && s[s.len() - 1] == s.last());
    assert(!is_white(s[0]) && !is_white(s.last()));
    assert(trim_start(s) == s);
    assert(trim_end(s) == s);
    lemma_ascii_byte_len(s);
    assert forall|i: int| 0 <= i < s.len() implies !is_control(#[trigger] s[i]) by {
        assert(0x20 <= (s[i] as u32) && (s[i] as u32) <= 0x7e);
    }
}

proof fn lemma_no_first_problem(names: Seq<(Seq<char>, Seq<char>)>, i: int)
    requires
        0 <= i,
        forall|k: int| i <= k < names.len() ==> name_problem(#[trigger] names[k].0, names[k].1) is None,
    ensures
        first_problem(names, i) is None,
    decreases names.len() - i,
{
    if i < names.len() {
        assert(name_problem(names[i].0, names[i].1) is None);
        lemma_no_first_problem(names, i + 1);
    }
}

proof fn lemma_windows_default_services_plain()
    ensures
        forall|i: int| 0 <= i < windows_default_services().len() ==> plain_name(#[trigger] windows_default_services()[i]),
{
    reveal_strlit("SysMain");
    reveal_strlit("WSearch");
    reveal_strlit("DiagTrack");
    reveal_strlit("dmwappushservice");
    reveal_strlit("WerSvc");
    reveal_strlit("BITS");
    reveal_strlit("wuauserv");
    reveal_strlit("Spooler");
    reveal_strlit("MapsBroker");
    reveal_strlit("lfsvc");
    let v = windows_default_services();
    assert(plain_name(v[0]));
    assert(plain_name(v[1]));
    assert(plain_name(v[2]));
    assert(plain_name(v[3]));
    assert(plain_name(v[4]));
    assert(plain_name(v[5]));
    assert(plain_name(v[6]));
    assert(plain_name(v[7]));
    assert(plain_name(v[8]));
    assert(plain_name(v[9]));
}

proof fn lemma_windows_default_processes_plain()
    ensures
        forall|i: int| 0 <= i < windows_default_processes().len() ==> plain_name(#[trigger] windows_default_processes()[i]),
{
    reveal_strlit("OneDrive");
    reveal_strlit("OneDriveStandaloneUpdater");
    reveal_strlit("MicrosoftEdgeUpdate");
    reveal_strlit("GoogleUpdate");
    reveal_strlit("GoogleCrashHandler");
    reveal_strlit("GoogleCrashHandler64");
    reveal_strlit("AdobeARM");
    reveal_strlit("AdobeGCClient");
    reveal_strlit("AGSService");
    reveal_strlit("CCXProcess");
    reveal_strlit("CoreSync");
    reveal_strlit("Creative Cloud");
    reveal_strlit("Dropbox");
    reveal_strlit("DropboxUpdate");
    reveal_strlit("Teams");
    reveal_strlit("ms-teams");
    reveal_strlit("Slack");
    reveal_strlit("YourPhone");
    reveal_strlit("PhoneExperienceHost");
    reveal_strlit("SearchApp");
    reveal_strlit("WidgetService");
    reveal_strlit("Widgets");
    reveal_strlit("SkypeApp");
    reveal_strlit("SkypeBackgroundHost");
    reveal_strlit("Copilot");
    reveal_strlit("OfficeClickToRun");
    reveal_strlit("AppVShNotify");
    let v = windows_default_processes();
    assert(plain_name(v[0]));
    assert(plain_name(v[1]));
    assert(plain_name(v[2]));
    assert(plain_name(v[3]));
    assert(plain_name(v[4]));
    assert(plain_name(v[5]));
    assert(plain_name(v[6]));
    assert(plain_name(v[7]));
    assert(plain_name(v[8]));
    assert(plain_name(v[9]));
    assert(plain_name(v[10]));
    assert(plain_name(v[11]));
    assert(plain_name(v[12]));
    assert(plain_name(v[13]));
    assert(plain_name(v[14]));
    assert(plain_name(v[15]));
    assert(plain_name(v[16]));
    assert(plain_name(v[17]));
    assert(plain_name(v[18]));
    assert(plain_name(v[19]));
    assert(plain_name(v[20]));
    assert(plain_name(v[21]));
    assert(plain_name(v[22]));
    assert(plain_name(v[23]));
    assert(plain_name(v[24]));
    assert(plain_name(v[25]));
    assert(plain_name(v[26]));
}

proof fn lemma_linux_default_services_plain()
    ensures
        forall|i: int| 0 <= i < linux_default_services().len() ==> plain_name(#[trigger] linux_default_services()[i]),
{
    reveal_strlit("packagekit");
    reveal_strlit("fwupd");
    reveal_strlit("cups");
    reveal_strlit("ModemManager");
    reveal_strlit("user:tracker-miner-fs-3");
    reveal_strlit("user:tracker-extract-3");
    reveal_strlit("user:evolution-calendar-factory");
    reveal_strlit("user:evolution-addressbook-factory");
    let v = linux_default_services();
    assert(plain_name(v[0]));
    assert(plain_name(v[1]));
    assert(plain_name(v[2]));
    assert(plain_name(v[3]));
    assert(plain_name(v[4]));
    assert(plain_name(v[5]));
    assert(plain_name(v[6]));
    assert(plain_name(v[7]));
}

proof fn lemma_linux_default_processes_plain()
    ensures
        forall|i: int| 0 <= i < linux_default_processes().len() ==> plain_name(#[trigger] linux_default_processes()[i]),
{
    reveal_strlit("dropbox");
    reveal_strlit("insync");
    reveal_strlit("onedrive");
    reveal_strlit("slack");
    reveal_strlit("teams-for-linux");
    reveal_strlit("baloo_file");
    reveal_strlit("baloo_file_extractor");
    reveal_strlit("gnome-software");
    reveal_strlit("plasma-discover");
    reveal_strlit("snap-store");
    let v = linux_default_processes();
    assert(plain_name(v[0]));
    assert(plain_name(v[1]));
    assert(plain_name(v[2]));
    assert(plain_name(v[3]));
    assert(plain_name(v[4]));
    assert(plain_name(v[5]));
    assert(plain_name(v[6]));
    assert(plain_name(v[7]));
    assert(plain_name(v[8]));
    assert(plain_name(v[9]));
}

proof fn lemma_macos_default_services_plain()
    ensures
        forall|i: int| 0 <= i < macos_default_services().len() ==> plain_name(#[trigger] macos_default_services()[i]),
{
    reveal_strlit("com.microsoft.update.agent");
    reveal_strlit("com.google.keystone.agent");
    reveal_strlit("com.adobe.AdobeCreativeCloud");
    reveal_strlit("com.adobe.ccxprocess");
    let v = macos_default_services();
    assert(plain_name(v[0]));
    assert(plain_name(v[1]));
    assert(plain_name(v[2]));
    assert(plain_name(v[3]));
}

proof fn lemma_macos_default_processes_plain()
    ensures
        forall|i: int| 0 <= i < macos_default_processes().len() ==> plain_name(#[trigger] macos_default_processes()[i]),
{
    reveal_strlit("Dropbox");
    reveal_strlit("OneDrive");
    reveal_strlit("Slack");
    reveal_strlit("Microsoft Teams");
    reveal_strlit("Creative Cloud");
    reveal_strlit("Adobe Desktop Service");
    reveal_strlit("CCXProcess");
    reveal_strlit("Google Drive");
    let v = macos_default_processes();
    assert(plain_name(v[0]));
    assert(plain_name(v[1]));
    assert(plain_name(v[2]));
    assert(plain_name(v[3]));
    assert(plain_name(v[4]));
    assert(plain_name(v[5]));
    assert(plain_name(v[6]));
    assert(plain_name(v[7]));
}

/// The settings a fresh install starts with pass validation: every default
/// target's name is accepted, on every platform.
pub proof fn lemma_defaults_are_valid(s: Settings, os: Os)
    requires
        is_default_settings(s, os),
    ensures
        first_problem(profile_names(s.profile), 0) is None,
{
    lemma_windows_default_services_plain();
    lemma_windows_default_processes_plain();
    lemma_linux_default_services_plain();
    lemma_linux_default_processes_plain();
    lemma_macos_default_services_plain();
    lemma_macos_default_processes_plain();
    let p = s.profile;
    let procs = default_process_names(os);
    let svcs = default_service_names(os);
    let names = profile_names(p);
    let np = p.processes@.len() as int;
    let ns = p.services@.len() as int;
    assert(names.len() == np + ns);
    assert forall|k: int| 0 <= k < names.len() implies name_problem(#[trigger] names[k].0, names[k].1) is None by {
        if k < np {
            assert(names[k] == ("process"@, p.processes@[k].name@));
            assert(p.processes@[k].name@ == procs[k]);
            assert(plain_name(procs[k]));
            lemma_plain_name_ok(names[k].0, names[k].1);
        } else {
            assert(names[k] == ("service"@, p.services@[k - np].name@));
            assert(p.services@[k - np].name@ == svcs[k - np]);
            assert(plain_name(svcs[k - np]));
            lemma_plain_name_ok(names[k].0, names[k].1);
        }
    }
    lemma_no_first_problem(names, 0);
}

} // verus!
