//! What Quiet Mode does: the services to stop, the processes to park and how,
//! the power plan to switch to, and whether to purge cached memory.
//!
//! The defaults are a curated catalogue of background hogs per platform:
//! sync clients, updaters, indexers, telemetry. Nothing a game or a model
//! server needs is in it, and nothing the desktop needs can be added to it
//! (see `policy`).

use vstd::prelude::*;
use crate::policy::views;

verus! {

/// The operating system the app is running on. Defaults and critical lists
/// differ per platform.
#[derive(Debug, Clone, Copy, PartialEq, Eq, Structural)]
pub enum Os {
    Windows,
    Linux,
    MacOs,
}

/// How a targeted process is parked.
///
/// `Suspend` freezes it in place: no CPU, state kept, resumed exactly where it
/// was. `Close` asks it to exit and relaunches it on restore, which also frees
/// its memory at the cost of whatever it had open.
#[derive(Debug, Clone, Copy, PartialEq, Eq, Structural)]
pub enum ProcessAction {
    Suspend,
    Close,
}

#[derive(Debug, Clone, PartialEq, Eq)]
pub struct ProcessTarget {
    pub name: String,
    pub action: ProcessAction,
    pub enabled: bool,
}

#[derive(Debug, Clone, PartialEq, Eq)]
pub struct ServiceTarget {
    /// Service name. On Linux a `user:` prefix selects a user unit.
    pub name: String,
    pub enabled: bool,
}

#[derive(Debug, Clone, Copy, PartialEq, Eq, Structural)]
pub enum PowerPolicy {
    Leave,
    Performance,
}

#[derive(Debug, Clone, PartialEq, Eq)]
pub struct Profile {
    pub processes: Vec<ProcessTarget>,
    pub services: Vec<ServiceTarget>,
    pub power: PowerPolicy,
    pub purge_memory: bool,
    /// Names the user has promised never to touch, on top of the built-ins.
    pub keep_alive: Vec<String>,
}

/// The services Quiet Mode stops by default on Windows.
pub open spec fn windows_default_services() -> Seq<Seq<char>> {
    seq![
        "SysMain"@,
        "WSearch"@,
        "DiagTrack"@,
        "dmwappushservice"@,
        "WerSvc"@,
        "BITS"@,
        "wuauserv"@,
        "Spooler"@,
        "MapsBroker"@,
        "lfsvc"@,
    ]
}

/// The programs Quiet Mode parks by default on Windows.
pub open spec fn windows_default_processes() -> Seq<Seq<char>> {
    seq![
        "OneDrive"@,
        "OneDriveStandaloneUpdater"@,
        "MicrosoftEdgeUpdate"@,
        "GoogleUpdate"@,
        "GoogleCrashHandler"@,
        "GoogleCrashHandler64"@,
        "AdobeARM"@,
        "AdobeGCClient"@,
        "AGSService"@,
        "CCXProcess"@,
        "CoreSync"@,
        "Creative Cloud"@,
        "Dropbox"@,
        "DropboxUpdate"@,
        "Teams"@,
        "ms-teams"@,
        "Slack"@,
        "YourPhone"@,
        "PhoneExperienceHost"@,
        "SearchApp"@,
        "WidgetService"@,
        "Widgets"@,
        "SkypeApp"@,
        "SkypeBackgroundHost"@,
        "Copilot"@,
        "OfficeClickToRun"@,
        "AppVShNotify"@,
    ]
}

/// The units Quiet Mode stops by default on Linux (`user:` for user units).
pub open spec fn linux_default_services() -> Seq<Seq<char>> {
    seq![
        "packagekit"@,
        "fwupd"@,
        "cups"@,
        "ModemManager"@,
        "user:tracker-miner-fs-3"@,
        "user:tracker-extract-3"@,
        "user:evolution-calendar-factory"@,
        "user:evolution-addressbook-factory"@,
    ]
}

/// The programs Quiet Mode parks by default on Linux.
pub open spec fn linux_default_processes() -> Seq<Seq<char>> {
    seq![
        "dropbox"@,
        "insync"@,
        "onedrive"@,
        "slack"@,
        "teams-for-linux"@,
        "baloo_file"@,
        "baloo_file_extractor"@,
        "gnome-software"@,
        "plasma-discover"@,
        "snap-store"@,
    ]
}

/// The launch agents Quiet Mode stops by default on macOS.
pub open spec fn macos_default_services() -> Seq<Seq<char>> {
    seq![
        "com.microsoft.update.agent"@,
        "com.google.keystone.agent"@,
        "com.adobe.AdobeCreativeCloud"@,
        "com.adobe.ccxprocess"@,
    ]
}

/// The programs Quiet Mode parks by default on macOS.
pub open spec fn macos_default_processes() -> Seq<Seq<char>> {
    seq![
        "Dropbox"@,
        "OneDrive"@,
        "Slack"@,
        "Microsoft Teams"@,
        "Creative Cloud"@,
        "Adobe Desktop Service"@,
        "CCXProcess"@,
        "Google Drive"@,
    ]
}

pub open spec fn default_process_names(os: Os) -> Seq<Seq<char>> {
    match os {
        Os::Windows => windows_default_processes(),
        Os::Linux => linux_default_processes(),
        Os::MacOs => macos_default_processes(),
    }
}

pub open spec fn default_service_names(os: Os) -> Seq<Seq<char>> {
    match os {
        Os::Windows => windows_default_services(),
        Os::Linux => linux_default_services(),
        Os::MacOs => macos_default_services(),
    }
}

/// A profile as plain values.
pub struct ProfileView {
    pub processes: Seq<(Seq<char>, ProcessAction, bool)>,
    pub services: Seq<(Seq<char>, bool)>,
    pub power: PowerPolicy,
    pub purge_memory: bool,
    pub keep_alive: Seq<Seq<char>>,
}

pub open spec fn process_targets_view(v: Seq<ProcessTarget>) -> Seq<(Seq<char>, ProcessAction, bool)> {
    v.map_values(|t: ProcessTarget| (t.name@, t.action, t.enabled))
}

pub open spec fn service_targets_view(v: Seq<ServiceTarget>) -> Seq<(Seq<char>, bool)> {
    v.map_values(|t: ServiceTarget| (t.name@, t.enabled))
}

impl View for Profile {
    type V = ProfileView;

    open spec fn view(&self) -> ProfileView {
        ProfileView {
            processes: process_targets_view(self.processes@),
            services: service_targets_view(self.services@),
            power: self.power,
            purge_memory: self.purge_memory,
            keep_alive: self.keep_alive@.map_values(|s: String| s@),
        }
    }
}

impl ProcessTarget {
    pub fn copy(&self) -> (r: ProcessTarget)
        ensures
            r.name@ == self.name@,
            r.action == self.action,
            r.enabled == self.enabled,
    {
        ProcessTarget { name: self.name.clone(), action: self.action, enabled: self.enabled }
    }
}

impl ServiceTarget {
    pub fn copy(&self) -> (r: ServiceTarget)
        ensures
            r.name@ == self.name@,
            r.enabled == self.enabled,
    {
        ServiceTarget { name: self.name.clone(), enabled: self.enabled }
    }
}

impl Profile {
    /// A profile with the same contents.
    pub fn copy(&self) -> (r: Profile)
        ensures
            r@ == self@,
    {
        let mut processes: Vec<ProcessTarget> = Vec::new();
        let mut i: usize = 0;
        while i < self.processes.len()
            invariant
                i <= self.processes@.len(),
                process_targets_view(processes@) == process_targets_view(self.processes@.take(i as int)),
            decreases self.processes.len() - i,
        {
            let ghost before = processes@;
            processes.push(self.processes[i].copy());
            assert(self.processes@.take(i + 1) =~= self.processes@.take(i as int).push(self.processes@[i as int]));
            assert(process_targets_view(processes@) =~= process_targets_view(before).push(
                (self.processes@[i as int].name@, self.processes@[i as int].action, self.processes@[i as int].enabled),
            ));
            assert(process_targets_view(self.processes@.take(i + 1)) =~= process_targets_view(self.processes@.take(i as int)).push(
                (self.processes@[i as int].name@, self.processes@[i as int].action, self.processes@[i as int].enabled),
            ));
            i = i + 1;
        }
        let mut services: Vec<ServiceTarget> = Vec::new();
        let mut j: usize = 0;
        while j < self.services.len()
            invariant
                j <= self.services@.len(),
                service_targets_view(services@) == service_targets_view(self.services@.take(j as int)),
            decreases self.services.len() - j,
        {
            let ghost before = services@;
            services.push(self.services[j].copy());
            assert(self.services@.take(j + 1) =~= self.services@.take(j as int).push(self.services@[j as int]));
            assert(service_targets_view(services@) =~= service_targets_view(before).push(
                (self.services@[j as int].name@, self.services@[j as int].enabled),
            ));
            assert(service_targets_view(self.services@.take(j + 1)) =~= service_targets_view(self.services@.take(j as int)).push(
                (self.services@[j as int].name@, self.services@[j as int].enabled),
            ));
            j = j + 1;
        }
        let keep_alive = crate::plan::copy_strings(&self.keep_alive);
        assert(self.processes@.take(self.processes@.len() as int) =~= self.processes@);
        assert(self.services@.take(self.services@.len() as int) =~= self.services@);
        let r = Profile { processes, services, power: self.power, purge_memory: self.purge_memory, keep_alive };
        assert(r@.keep_alive =~= self@.keep_alive);
        r
    }
}

/// The built-in profile of `os`: every default program suspended and every
/// default service stopped, all enabled; the performance power plan; a memory
/// purge; nothing kept alive.
pub open spec fn is_default_profile(p: Profile, os: Os) -> bool {
    let procs = default_process_names(os);
    let svcs = default_service_names(os);
    &&& p.processes@.len() == procs.len()
    &&& forall|i: int|
        0 <= i < procs.len() ==> {
            &&& #[trigger] p.processes@[i].name@ == procs[i]
            &&& p.processes@[i].action == ProcessAction::Suspend
            &&& p.processes@[i].enabled
        }
    &&& p.services@.len() == svcs.len()
    &&& forall|i: int|
        0 <= i < svcs.len() ==> {
            &&& #[trigger] p.services@[i].name@ == svcs[i]
            &&& p.services@[i].enabled
        }
    &&& p.power == PowerPolicy::Performance
    &&& p.purge_memory
    &&& p.keep_alive@.len() == 0
}

fn windows_default_service_list() -> (v: Vec<&'static str>)
    ensures
        views(v@) == windows_default_services(),
{
    let v = vec![
        "SysMain",
        "WSearch",
        "DiagTrack",
        "dmwappushservice",
        "WerSvc",
        "BITS",
        "wuauserv",
        "Spooler",
        "MapsBroker",
        "lfsvc",
    ];
    assert(views(v@) =~= windows_default_services());
    v
}

fn windows_default_process_list() -> (v: Vec<&'static str>)
    ensures
        views(v@) == windows_default_processes(),
{
    let v = vec![
        "OneDrive",
        "OneDriveStandaloneUpdater",
        "MicrosoftEdgeUpdate",
        "GoogleUpdate",
        "GoogleCrashHandler",
        "GoogleCrashHandler64",
        "AdobeARM",
        "AdobeGCClient",
        "AGSService",
        "CCXProcess",
        "CoreSync",
        "Creative Cloud",
        "Dropbox",
        "DropboxUpdate",
        "Teams",
        "ms-teams",
        "Slack",
        "YourPhone",
        "PhoneExperienceHost",
        "SearchApp",
        "WidgetService",
        "Widgets",
        "SkypeApp",
        "SkypeBackgroundHost",
        "Copilot",
        "OfficeClickToRun",
        "AppVShNotify",
    ];
    assert(views(v@) =~= windows_default_processes());
    v
}

fn linux_default_service_list() -> (v: Vec<&'static str>)
    ensures
        views(v@) == linux_default_services(),
{
    let v = vec![
        "packagekit",
        "fwupd",
        "cups",
        "ModemManager",
        "user:tracker-miner-fs-3",
        "user:tracker-extract-3",
        "user:evolution-calendar-factory",
        "user:evolution-addressbook-factory",
    ];
    assert(views(v@) =~= linux_default_services());
    v
}

fn linux_default_process_list() -> (v: Vec<&'static str>)
    ensures
        views(v@) == linux_default_processes(),
{
    let v = vec![
        "dropbox",
        "insync",
        "onedrive",
        "slack",
        "teams-for-linux",
        "baloo_file",
        "baloo_file_extractor",
        "gnome-software",
        "plasma-discover",
        "snap-store",
    ];
    assert(views(v@) =~= linux_default_processes());
    v
}

fn macos_default_service_list() -> (v: Vec<&'static str>)
    ensures
        views(v@) == macos_default_services(),
{
    let v = vec![
        "com.microsoft.update.agent",
        "com.google.keystone.agent",
        "com.adobe.AdobeCreativeCloud",
        "com.adobe.ccxprocess",
    ];
    assert(views(v@) =~= macos_default_services());
    v
}

fn macos_default_process_list() -> (v: Vec<&'static str>)
    ensures
        views(v@) == macos_default_processes(),
{
    let v = vec![
        "Dropbox",
        "OneDrive",
        "Slack",
        "Microsoft Teams",
        "Creative Cloud",
        "Adobe Desktop Service",
        "CCXProcess",
        "Google Drive",
    ];
    assert(views(v@) =~= macos_default_processes());
    v
}

impl Profile {
    pub fn default_for(os: Os) -> (p: Profile)
        ensures
            is_default_profile(p, os),
    {
        let (processes, services) = match os {
            Os::Windows => (windows_default_process_list(), windows_default_service_list()),
            Os::Linux => (linux_default_process_list(), linux_default_service_list()),
            Os::MacOs => (macos_default_process_list(), macos_default_service_list()),
        };
        let mut targets: Vec<ProcessTarget> = Vec::new();
        let mut i: usize = 0;
        while i < processes.len()
            invariant
                i <= processes@.len(),
                views(processes@) == default_process_names(os),
                targets@.len() == i,
                forall|k: int| 0 <= k < i ==> #[trigger] targets@[k].name@ == default_process_names(os)[k],
                forall|k: int| 0 <= k < i ==> (#[trigger] targets@[k]).action == ProcessAction::Suspend,
                forall|k: int| 0 <= k < i ==> (#[trigger] targets@[k]).enabled,
            decreases processes.len() - i,
        {
            assert(views(processes@)[i as int] == processes@[i as int]@);
            let name = String::from_str(processes[i]);
            assert(name@ == default_process_names(os)[i as int]);
            let ghost before = targets@;
            targets.push(ProcessTarget { name, action: ProcessAction::Suspend, enabled: true });
            assert(forall|k: int| 0 <= k < i ==> targets@[k] == before[k]);
            assert(targets@[i as int].name@ == default_process_names(os)[i as int]);
            i = i + 1;
        }
        let mut stops: Vec<ServiceTarget> = Vec::new();
        let mut j: usize = 0;
        while j < services.len()
            invariant
                j <= services@.len(),
                views(services@) == default_service_names(os),
                stops@.len() == j,
                forall|k: int|
                    0 <= k < j ==> {
                        &&& #[trigger] stops@[k].name@ == default_service_names(os)[k]
                        &&& stops@[k].enabled
                    },
            decreases services.len() - j,
        {
            assert(views(services@)[j as int] == services@[j as int]@);
            let ghost before = stops@;
            stops.push(ServiceTarget { name: String::from_str(services[j]), enabled: true });
            assert(forall|k: int| 0 <= k < j ==> stops@[k] == before[k]);
            assert(stops@[j as int].name@ == views(services@)[j as int]);
            j = j + 1;
        }
        assert(views(processes@).len() == processes@.len());
        assert(views(services@).len() == services@.len());
        Profile {
            processes: targets,
            services: stops,
            power: PowerPolicy::Performance,
            purge_memory: true,
            keep_alive: Vec::new(),
        }
    }
}

} // verus!
