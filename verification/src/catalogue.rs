//! What the scanner knows about background software: which programs and
//! services are safe to park, why, and how confident that is.
//!
//! `Low` risk means parking it costs nothing a user would notice during a
//! game or a model run. `Medium` means it is probably fine but a user might
//! be relying on it right now (a browser, a game launcher, voice chat), so
//! the scan shows it and leaves the choice to them.

use vstd::prelude::*;
use crate::profile::Os;

verus! {

#[derive(Debug, Clone, Copy, PartialEq, Eq, PartialOrd, Ord, Structural)]
pub enum Risk {
    Low,
    Medium,
}

/// `Low` orders before `Medium`.
pub open spec fn risk_rank(r: Risk) -> int {
    match r {
        Risk::Low => 0,
        Risk::Medium => 1,
    }
}

pub fn rank_of(r: Risk) -> (n: u8)
    ensures
        n == risk_rank(r),
{
    match r {
        Risk::Low => 0,
        Risk::Medium => 1,
    }
}

pub struct KnownProcess {
    pub name: &'static str,
    pub reason: &'static str,
    pub risk: Risk,
}

pub struct KnownService {
    pub name: &'static str,
    pub reason: &'static str,
    pub risk: Risk,
}

pub const SYNC: &'static str = "cloud sync client; resumes syncing on restore";
pub const UPDATER: &'static str = "background updater; it will run again later";
pub const TELEMETRY: &'static str = "telemetry or assistant that does nothing for a game";
pub const CHAT: &'static str = "chat client; suspend keeps it signed in";
pub const CREATIVE: &'static str = "creative-suite helper that idles in the background";
pub const LAUNCHER: &'static str = "game launcher; only needed while it is starting a game";
pub const BROWSER: &'static str = "browser; suspend if you are not using it";
pub const OFFICE: &'static str = "office app; suspend keeps unsaved work in memory";
pub const MUSIC: &'static str = "music player";
pub const VOICE: &'static str = "voice chat; keep it if you are talking while you play";
pub const DEV: &'static str = "developer tooling that idles in the background";

/// A catalogue entry as plain values: name, reason and risk.
pub open spec fn process_entries(v: Seq<KnownProcess>) -> Seq<(Seq<char>, Seq<char>, Risk)> {
    v.map_values(|k: KnownProcess| (k.name@, k.reason@, k.risk))
}

pub open spec fn service_entries(v: Seq<KnownService>) -> Seq<(Seq<char>, Seq<char>, Risk)> {
    v.map_values(|k: KnownService| (k.name@, k.reason@, k.risk))
}

/// Background programs found on every platform.
pub open spec fn common_known_processes() -> Seq<(Seq<char>, Seq<char>, Risk)> {
    seq![
        ("OneDrive"@, SYNC@, Risk::Low),
        ("Dropbox"@, SYNC@, Risk::Low),
        ("GoogleDriveFS"@, SYNC@, Risk::Low),
        ("Google Drive"@, SYNC@, Risk::Low),
        ("iCloudDrive"@, SYNC@, Risk::Low),
        ("Nextcloud"@, SYNC@, Risk::Low),
        ("insync"@, SYNC@, Risk::Low),
        ("Teams"@, CHAT@, Risk::Low),
        ("ms-teams"@, CHAT@, Risk::Low),
        ("Slack"@, CHAT@, Risk::Low),
        ("WhatsApp"@, CHAT@, Risk::Low),
        ("Signal"@, CHAT@, Risk::Low),
        ("Telegram"@, CHAT@, Risk::Low),
        ("Zoom"@, CHAT@, Risk::Medium),
        ("Discord"@, VOICE@, Risk::Medium),
        ("Spotify"@, MUSIC@, Risk::Medium),
        ("CCXProcess"@, CREATIVE@, Risk::Low),
        ("CoreSync"@, CREATIVE@, Risk::Low),
        ("Creative Cloud"@, CREATIVE@, Risk::Low),
        ("Adobe Desktop Service"@, CREATIVE@, Risk::Low),
        ("AdobeIPCBroker"@, CREATIVE@, Risk::Low),
        ("AGSService"@, CREATIVE@, Risk::Low),
        ("chrome"@, BROWSER@, Risk::Medium),
        ("msedge"@, BROWSER@, Risk::Medium),
        ("firefox"@, BROWSER@, Risk::Medium),
        ("brave"@, BROWSER@, Risk::Medium),
        ("opera"@, BROWSER@, Risk::Medium),
        ("vivaldi"@, BROWSER@, Risk::Medium),
        ("Docker Desktop"@, DEV@, Risk::Medium),
        ("com.docker.backend"@, DEV@, Risk::Medium),
    ]
}

/// Background programs particular to Windows.
pub open spec fn windows_known_processes() -> Seq<(Seq<char>, Seq<char>, Risk)> {
    seq![
        ("OneDriveStandaloneUpdater"@, UPDATER@, Risk::Low),
        ("MicrosoftEdgeUpdate"@, UPDATER@, Risk::Low),
        ("GoogleUpdate"@, UPDATER@, Risk::Low),
        ("GoogleCrashHandler"@, UPDATER@, Risk::Low),
        ("GoogleCrashHandler64"@, UPDATER@, Risk::Low),
        ("AdobeARM"@, UPDATER@, Risk::Low),
        ("AdobeGCClient"@, UPDATER@, Risk::Low),
        ("DropboxUpdate"@, UPDATER@, Risk::Low),
        ("jusched"@, UPDATER@, Risk::Low),
        ("OfficeClickToRun"@, UPDATER@, Risk::Low),
        ("AppVShNotify"@, UPDATER@, Risk::Low),
        ("YourPhone"@, TELEMETRY@, Risk::Low),
        ("PhoneExperienceHost"@, TELEMETRY@, Risk::Low),
        ("SearchApp"@, TELEMETRY@, Risk::Low),
        ("WidgetService"@, TELEMETRY@, Risk::Low),
        ("Widgets"@, TELEMETRY@, Risk::Low),
        ("SkypeApp"@, CHAT@, Risk::Low),
        ("SkypeBackgroundHost"@, CHAT@, Risk::Low),
        ("Copilot"@, TELEMETRY@, Risk::Low),
        ("EpicGamesLauncher"@, LAUNCHER@, Risk::Medium),
        ("EpicWebHelper"@, LAUNCHER@, Risk::Medium),
        ("Battle.net"@, LAUNCHER@, Risk::Medium),
        ("GalaxyClient"@, LAUNCHER@, Risk::Medium),
        ("EADesktop"@, LAUNCHER@, Risk::Medium),
        ("EABackgroundService"@, LAUNCHER@, Risk::Medium),
        ("RiotClientServices"@, LAUNCHER@, Risk::Medium),
        ("UbisoftConnect"@, LAUNCHER@, Risk::Medium),
        ("upc"@, LAUNCHER@, Risk::Medium),
        ("OUTLOOK"@, OFFICE@, Risk::Medium),
        ("olk"@, OFFICE@, Risk::Medium),
        ("EXCEL"@, OFFICE@, Risk::Medium),
        ("WINWORD"@, OFFICE@, Risk::Medium),
        ("POWERPNT"@, OFFICE@, Risk::Medium),
        ("ONENOTE"@, OFFICE@, Risk::Medium),
    ]
}

/// Background programs particular to Linux.
pub open spec fn linux_known_processes() -> Seq<(Seq<char>, Seq<char>, Risk)> {
    seq![
        ("teams-for-linux"@, CHAT@, Risk::Low),
        ("baloo_file"@, "KDE file indexer"@, Risk::Low),
        ("baloo_file_extractor"@, "KDE file indexer"@, Risk::Low),
        ("gnome-software"@, UPDATER@, Risk::Low),
        ("plasma-discover"@, UPDATER@, Risk::Low),
        ("snap-store"@, UPDATER@, Risk::Low),
        ("evolution-alarm-notify"@, "calendar reminders"@, Risk::Low),
    ]
}

/// Background programs particular to macOS.
pub open spec fn macos_known_processes() -> Seq<(Seq<char>, Seq<char>, Risk)> {
    seq![
        ("Microsoft Teams"@, CHAT@, Risk::Low),
        ("Microsoft Update Assistant"@, UPDATER@, Risk::Low),
        ("Google Software Update"@, UPDATER@, Risk::Low),
    ]
}

/// Windows services that are safe to stop.
pub open spec fn windows_known_services() -> Seq<(Seq<char>, Seq<char>, Risk)> {
    seq![
        ("SysMain"@, "Superfetch prefetching; competes for disk and memory"@, Risk::Low),
        ("WSearch"@, "search indexing; resumes where it left off"@, Risk::Low),
        ("DiagTrack"@, "telemetry upload"@, Risk::Low),
        ("dmwappushservice"@, "telemetry routing"@, Risk::Low),
        ("WerSvc"@, "error reporting upload"@, Risk::Low),
        ("wuauserv"@, "Windows Update downloads and installs"@, Risk::Low),
        ("BITS"@, "background transfers for updates"@, Risk::Low),
        ("Spooler"@, "print spooler"@, Risk::Low),
        ("MapsBroker"@, "offline maps updates"@, Risk::Low),
        ("lfsvc"@, "geolocation"@, Risk::Low),
        ("DPS"@, "diagnostic policy service"@, Risk::Low),
        ("TrkWks"@, "distributed link tracking"@, Risk::Low),
        ("PcaSvc"@, "program compatibility assistant"@, Risk::Low),
        ("WMPNetworkSvc"@, "media sharing"@, Risk::Low),
        ("RemoteRegistry"@, "remote registry access"@, Risk::Low),
        ("Fax"@, "fax service"@, Risk::Low),
        ("RetailDemo"@, "retail demo mode"@, Risk::Low),
        ("wisvc"@, "Windows Insider service"@, Risk::Low),
        ("iphlpsvc"@, "IPv6 transition tunnels"@, Risk::Low),
        ("SEMgrSvc"@, "payments and NFC"@, Risk::Low),
        ("CDPSvc"@, "connected devices platform (Phone Link, Nearby Share)"@, Risk::Medium),
        ("WpnService"@, "push notifications"@, Risk::Medium),
        ("TabletInputService"@, "touch keyboard and handwriting"@, Risk::Medium),
        ("WbioSrvc"@, "Windows Hello biometrics"@, Risk::Medium),
        ("XblAuthManager"@, "Xbox sign-in; Game Pass games need it"@, Risk::Medium),
        ("XblGameSave"@, "Xbox cloud saves; Game Pass games need it"@, Risk::Medium),
        ("XboxNetApiSvc"@, "Xbox networking; Game Pass games need it"@, Risk::Medium),
    ]
}

/// Linux units that are safe to stop (`user:` for user units).
pub open spec fn linux_known_services() -> Seq<(Seq<char>, Seq<char>, Risk)> {
    seq![
        ("packagekit"@, "package management daemon"@, Risk::Low),
        ("fwupd"@, "firmware update daemon"@, Risk::Low),
        ("cups"@, "printing"@, Risk::Low),
        ("cups-browsed"@, "printer discovery"@, Risk::Low),
        ("ModemManager"@, "mobile broadband"@, Risk::Low),
        ("avahi-daemon"@, "mDNS discovery"@, Risk::Low),
        ("unattended-upgrades"@, "automatic package upgrades"@, Risk::Low),
        ("snapd"@, "snap package daemon"@, Risk::Medium),
        ("bluetooth"@, "Bluetooth; keep it for wireless controllers or headsets"@, Risk::Medium),
        ("user:tracker-miner-fs-3"@, "GNOME file indexer"@, Risk::Low),
        ("user:tracker-extract-3"@, "GNOME metadata extractor"@, Risk::Low),
        ("user:evolution-calendar-factory"@, "calendar backend"@, Risk::Low),
        ("user:evolution-addressbook-factory"@, "contacts backend"@, Risk::Low),
        ("user:gvfs-udisks2-volume-monitor"@, "removable media monitor"@, Risk::Medium),
    ]
}

/// macOS launch agents that are safe to stop.
pub open spec fn macos_known_services() -> Seq<(Seq<char>, Seq<char>, Risk)> {
    seq![
        ("com.microsoft.update.agent"@, "Microsoft AutoUpdate"@, Risk::Low),
        ("com.google.keystone.agent"@, "Google updater"@, Risk::Low),
        ("com.google.keystone.xpcservice"@, "Google updater"@, Risk::Low),
        ("com.adobe.AdobeCreativeCloud"@, "Creative Cloud helper"@, Risk::Low),
        ("com.adobe.ccxprocess"@, "Creative Cloud helper"@, Risk::Low),
        ("com.dropbox.DropboxMacUpdate.agent"@, "Dropbox updater"@, Risk::Low),
    ]
}

/// The known programs of `os`: the common ones, then the platform's own.
pub open spec fn known_processes(os: Os) -> Seq<(Seq<char>, Seq<char>, Risk)> {
    common_known_processes() + match os {
        Os::Windows => windows_known_processes(),
        Os::Linux => linux_known_processes(),
        Os::MacOs => macos_known_processes(),
    }
}

/// The known services of `os`.
pub open spec fn known_services(os: Os) -> Seq<(Seq<char>, Seq<char>, Risk)> {
    match os {
        Os::Windows => windows_known_services(),
        Os::Linux => linux_known_services(),
        Os::MacOs => macos_known_services(),
    }
}

fn common_process_list() -> (v: Vec<KnownProcess>)
    ensures
        process_entries(v@) == common_known_processes(),
{
    let v = vec![
        KnownProcess {
            name: "OneDrive",
            reason: SYNC,
            risk: Risk::Low,
        },
        KnownProcess {
            name: "Dropbox",
            reason: SYNC,
            risk: Risk::Low,
        },
        KnownProcess {
            name: "GoogleDriveFS",
            reason: SYNC,
            risk: Risk::Low,
        },
        KnownProcess {
            name: "Google Drive",
            reason: SYNC,
            risk: Risk::Low,
        },
        KnownProcess {
            name: "iCloudDrive",
            reason: SYNC,
            risk: Risk::Low,
        },
        KnownProcess {
            name: "Nextcloud",
            reason: SYNC,
            risk: Risk::Low,
        },
        KnownProcess {
            name: "insync",
            reason: SYNC,
            risk: Risk::Low,
        },
        KnownProcess {
            name: "Teams",
            reason: CHAT,
            risk: Risk::Low,
        },
        KnownProcess {
            name: "ms-teams",
            reason: CHAT,
            risk: Risk::Low,
        },
        KnownProcess {
            name: "Slack",
            reason: CHAT,
            risk: Risk::Low,
        },
        KnownProcess {
            name: "WhatsApp",
            reason: CHAT,
            risk: Risk::Low,
        },
        KnownProcess {
            name: "Signal",
            reason: CHAT,
            risk: Risk::Low,
        },
        KnownProcess {
            name: "Telegram",
            reason: CHAT,
            risk: Risk::Low,
        },
        KnownProcess {
            name: "Zoom",
            reason: CHAT,
            risk: Risk::Medium,
        },
        KnownProcess {
            name: "Discord",
            reason: VOICE,
            risk: Risk::Medium,
        },
        KnownProcess {
            name: "Spotify",
            reason: MUSIC,
            risk: Risk::Medium,
        },
        KnownProcess {
            name: "CCXProcess",
            reason: CREATIVE,
            risk: Risk::Low,
        },
        KnownProcess {
            name: "CoreSync",
            reason: CREATIVE,
            risk: Risk::Low,
        },
        KnownProcess {
            name: "Creative Cloud",
            reason: CREATIVE,
            risk: Risk::Low,
        },
        KnownProcess {
            name: "Adobe Desktop Service",
            reason: CREATIVE,
            risk: Risk::Low,
        },
        KnownProcess {
            name: "AdobeIPCBroker",
            reason: CREATIVE,
            risk: Risk::Low,
        },
        KnownProcess {
            name: "AGSService",
            reason: CREATIVE,
            risk: Risk::Low,
        },
        KnownProcess {
            name: "chrome",
            reason: BROWSER,
            risk: Risk::Medium,
        },
        KnownProcess {
            name: "msedge",
            reason: BROWSER,
            risk: Risk::Medium,
        },
        KnownProcess {
            name: "firefox",
            reason: BROWSER,
            risk: Risk::Medium,
        },
        KnownProcess {
            name: "brave",
            reason: BROWSER,
            risk: Risk::Medium,
        },
        KnownProcess {
            name: "opera",
            reason: BROWSER,
            risk: Risk::Medium,
        },
        KnownProcess {
            name: "vivaldi",
            reason: BROWSER,
            risk: Risk::Medium,
        },
        KnownProcess {
            name: "Docker Desktop",
            reason: DEV,
            risk: Risk::Medium,
        },
        KnownProcess {
            name: "com.docker.backend",
            reason: DEV,
            risk: Risk::Medium,
        },
    ];
    assert(process_entries(v@) =~= common_known_processes());
    v
}

fn windows_process_list() -> (v: Vec<KnownProcess>)
    ensures
        process_entries(v@) == windows_known_processes(),
{
    let v = vec![
        KnownProcess {
            name: "OneDriveStandaloneUpdater",
            reason: UPDATER,
            risk: Risk::Low,
        },
        KnownProcess {
            name: "MicrosoftEdgeUpdate",
            reason: UPDATER,
            risk: Risk::Low,
        },
        KnownProcess {
            name: "GoogleUpdate",
            reason: UPDATER,
            risk: Risk::Low,
        },
        KnownProcess {
            name: "GoogleCrashHandler",
            reason: UPDATER,
            risk: Risk::Low,
        },
        KnownProcess {
            name: "GoogleCrashHandler64",
            reason: UPDATER,
            risk: Risk::Low,
        },
        KnownProcess {
            name: "AdobeARM",
            reason: UPDATER,
            risk: Risk::Low,
        },
        KnownProcess {
            name: "AdobeGCClient",
            reason: UPDATER,
            risk: Risk::Low,
        },
        KnownProcess {
            name: "DropboxUpdate",
            reason: UPDATER,
            risk: Risk::Low,
        },
        KnownProcess {
            name: "jusched",
            reason: UPDATER,
            risk: Risk::Low,
        },
        KnownProcess {
            name: "OfficeClickToRun",
            reason: UPDATER,
            risk: Risk::Low,
        },
        KnownProcess {
            name: "AppVShNotify",
            reason: UPDATER,
            risk: Risk::Low,
        },
        KnownProcess {
            name: "YourPhone",
            reason: TELEMETRY,
            risk: Risk::Low,
        },
        KnownProcess {
            name: "PhoneExperienceHost",
            reason: TELEMETRY,
            risk: Risk::Low,
        },
        KnownProcess {
            name: "SearchApp",
            reason: TELEMETRY,
            risk: Risk::Low,
        },
        KnownProcess {
            name: "WidgetService",
            reason: TELEMETRY,
            risk: Risk::Low,
        },
        KnownProcess {
            name: "Widgets",
            reason: TELEMETRY,
            risk: Risk::Low,
        },
        KnownProcess {
            name: "SkypeApp",
            reason: CHAT,
            risk: Risk::Low,
        },
        KnownProcess {
            name: "SkypeBackgroundHost",
            reason: CHAT,
            risk: Risk::Low,
        },
        KnownProcess {
            name: "Copilot",
            reason: TELEMETRY,
            risk: Risk::Low,
        },
        KnownProcess {
            name: "EpicGamesLauncher",
            reason: LAUNCHER,
            risk: Risk::Medium,
        },
        KnownProcess {
            name: "EpicWebHelper",
            reason: LAUNCHER,
            risk: Risk::Medium,
        },
        KnownProcess {
            name: "Battle.net",
            reason: LAUNCHER,
            risk: Risk::Medium,
        },
        KnownProcess {
            name: "GalaxyClient",
            reason: LAUNCHER,
            risk: Risk::Medium,
        },
        KnownProcess {
            name: "EADesktop",
            reason: LAUNCHER,
            risk: Risk::Medium,
        },
        KnownProcess {
            name: "EABackgroundService",
            reason: LAUNCHER,
            risk: Risk::Medium,
        },
        KnownProcess {
            name: "RiotClientServices",
            reason: LAUNCHER,
            risk: Risk::Medium,
        },
        KnownProcess {
            name: "UbisoftConnect",
            reason: LAUNCHER,
            risk: Risk::Medium,
        },
        KnownProcess {
            name: "upc",
            reason: LAUNCHER,
            risk: Risk::Medium,
        },
        KnownProcess {
            name: "OUTLOOK",
            reason: OFFICE,
            risk: Risk::Medium,
        },
        KnownProcess {
            name: "olk",
            reason: OFFICE,
            risk: Risk::Medium,
        },
        KnownProcess {
            name: "EXCEL",
            reason: OFFICE,
            risk: Risk::Medium,
        },
        KnownProcess {
            name: "WINWORD",
            reason: OFFICE,
            risk: Risk::Medium,
        },
        KnownProcess {
            name: "POWERPNT",
            reason: OFFICE,
            risk: Risk::Medium,
        },
        KnownProcess {
            name: "ONENOTE",
            reason: OFFICE,
            risk: Risk::Medium,
        },
    ];
    assert(process_entries(v@) =~= windows_known_processes());
    v
}

fn linux_process_list() -> (v: Vec<KnownProcess>)
    ensures
        process_entries(v@) == linux_known_processes(),
{
    let v = vec![
        KnownProcess {
            name: "teams-for-linux",
            reason: CHAT,
            risk: Risk::Low,
        },
        KnownProcess {
            name: "baloo_file",
            reason: "KDE file indexer",
            risk: Risk::Low,
        },
        KnownProcess {
            name: "baloo_file_extractor",
            reason: "KDE file indexer",
            risk: Risk::Low,
        },
        KnownProcess {
            name: "gnome-software",
            reason: UPDATER,
            risk: Risk::Low,
        },
        KnownProcess {
            name: "plasma-discover",
            reason: UPDATER,
            risk: Risk::Low,
        },
        KnownProcess {
            name: "snap-store",
            reason: UPDATER,
            risk: Risk::Low,
        },
        KnownProcess {
            name: "evolution-alarm-notify",
            reason: "calendar reminders",
            risk: Risk::Low,
        },
    ];
    assert(process_entries(v@) =~= linux_known_processes());
    v
}

fn macos_process_list() -> (v: Vec<KnownProcess>)
    ensures
        process_entries(v@) == macos_known_processes(),
{
    let v = vec![
        KnownProcess {
            name: "Microsoft Teams",
            reason: CHAT,
            risk: Risk::Low,
        },
        KnownProcess {
            name: "Microsoft Update Assistant",
            reason: UPDATER,
            risk: Risk::Low,
        },
        KnownProcess {
            name: "Google Software Update",
            reason: UPDATER,
            risk: Risk::Low,
        },
    ];
    assert(process_entries(v@) =~= macos_known_processes());
    v
}

fn windows_service_list() -> (v: Vec<KnownService>)
    ensures
        service_entries(v@) == windows_known_services(),
{
    let v = vec![
        KnownService {
            name: "SysMain",
            reason: "Superfetch prefetching; competes for disk and memory",
            risk: Risk::Low,
        },
        KnownService {
            name: "WSearch",
            reason: "search indexing; resumes where it left off",
            risk: Risk::Low,
        },
        KnownService {
            name: "DiagTrack",
            reason: "telemetry upload",
            risk: Risk::Low,
        },
        KnownService {
            name: "dmwappushservice",
            reason: "telemetry routing",
            risk: Risk::Low,
        },
        KnownService {
            name: "WerSvc",
            reason: "error reporting upload",
            risk: Risk::Low,
        },
        KnownService {
            name: "wuauserv",
            reason: "Windows Update downloads and installs",
            risk: Risk::Low,
        },
        KnownService {
            name: "BITS",
            reason: "background transfers for updates",
            risk: Risk::Low,
        },
        KnownService {
            name: "Spooler",
            reason: "print spooler",
            risk: Risk::Low,
        },
        KnownService {
            name: "MapsBroker",
            reason: "offline maps updates",
            risk: Risk::Low,
        },
        KnownService {
            name: "lfsvc",
            reason: "geolocation",
            risk: Risk::Low,
        },
        KnownService {
            name: "DPS",
            reason: "diagnostic policy service",
            risk: Risk::Low,
        },
        KnownService {
            name: "TrkWks",
            reason: "distributed link tracking",
            risk: Risk::Low,
        },
        KnownService {
            name: "PcaSvc",
            reason: "program compatibility assistant",
            risk: Risk::Low,
        },
        KnownService {
            name: "WMPNetworkSvc",
            reason: "media sharing",
            risk: Risk::Low,
        },
        KnownService {
            name: "RemoteRegistry",
            reason: "remote registry access",
            risk: Risk::Low,
        },
        KnownService {
            name: "Fax",
            reason: "fax service",
            risk: Risk::Low,
        },
        KnownService {
            name: "RetailDemo",
            reason: "retail demo mode",
            risk: Risk::Low,
        },
        KnownService {
            name: "wisvc",
            reason: "Windows Insider service",
            risk: Risk::Low,
        },
        KnownService {
            name: "iphlpsvc",
            reason: "IPv6 transition tunnels",
            risk: Risk::Low,
        },
        KnownService {
            name: "SEMgrSvc",
            reason: "payments and NFC",
            risk: Risk::Low,
        },
        KnownService {
            name: "CDPSvc",
            reason: "connected devices platform (Phone Link, Nearby Share)",
            risk: Risk::Medium,
        },
        KnownService {
            name: "WpnService",
            reason: "push notifications",
            risk: Risk::Medium,
        },
        KnownService {
            name: "TabletInputService",
            reason: "touch keyboard and handwriting",
            risk: Risk::Medium,
        },
        KnownService {
            name: "WbioSrvc",
            reason: "Windows Hello biometrics",
            risk: Risk::Medium,
        },
        KnownService {
            name: "XblAuthManager",
            reason: "Xbox sign-in; Game Pass games need it",
            risk: Risk::Medium,
        },
        KnownService {
            name: "XblGameSave",
            reason: "Xbox cloud saves; Game Pass games need it",
            risk: Risk::Medium,
        },
        KnownService {
            name: "XboxNetApiSvc",
            reason: "Xbox networking; Game Pass games need it",
            risk: Risk::Medium,
        },
    ];
    assert(service_entries(v@) =~= windows_known_services());
    v
}

fn linux_service_list() -> (v: Vec<KnownService>)
    ensures
        service_entries(v@) == linux_known_services(),
{
    let v = vec![
        KnownService {
            name: "packagekit",
            reason: "package management daemon",
            risk: Risk::Low,
        },
        KnownService {
            name: "fwupd",
            reason: "firmware update daemon",
            risk: Risk::Low,
        },
        KnownService {
            name: "cups",
            reason: "printing",
            risk: Risk::Low,
        },
        KnownService {
            name: "cups-browsed",
            reason: "printer discovery",
            risk: Risk::Low,
        },
        KnownService {
            name: "ModemManager",
            reason: "mobile broadband",
            risk: Risk::Low,
        },
        KnownService {
            name: "avahi-daemon",
            reason: "mDNS discovery",
            risk: Risk::Low,
        },
        KnownService {
            name: "unattended-upgrades",
            reason: "automatic package upgrades",
            risk: Risk::Low,
        },
        KnownService {
            name: "snapd",
            reason: "snap package daemon",
            risk: Risk::Medium,
        },
        KnownService {
            name: "bluetooth",
            reason: "Bluetooth; keep it for wireless controllers or headsets",
            risk: Risk::Medium,
        },
        KnownService {
            name: "user:tracker-miner-fs-3",
            reason: "GNOME file indexer",
            risk: Risk::Low,
        },
        KnownService {
            name: "user:tracker-extract-3",
            reason: "GNOME metadata extractor",
            risk: Risk::Low,
        },
        KnownService {
            name: "user:evolution-calendar-factory",
            reason: "calendar backend",
            risk: Risk::Low,
        },
        KnownService {
            name: "user:evolution-addressbook-factory",
            reason: "contacts backend",
            risk: Risk::Low,
        },
        KnownService {
            name: "user:gvfs-udisks2-volume-monitor",
            reason: "removable media monitor",
            risk: Risk::Medium,
        },
    ];
    assert(service_entries(v@) =~= linux_known_services());
    v
}

fn macos_service_list() -> (v: Vec<KnownService>)
    ensures
        service_entries(v@) == macos_known_services(),
{
    let v = vec![
        KnownService {
            name: "com.microsoft.update.agent",
            reason: "Microsoft AutoUpdate",
            risk: Risk::Low,
        },
        KnownService {
            name: "com.google.keystone.agent",
            reason: "Google updater",
            risk: Risk::Low,
        },
        KnownService {
            name: "com.google.keystone.xpcservice",
            reason: "Google updater",
            risk: Risk::Low,
        },
        KnownService {
            name: "com.adobe.AdobeCreativeCloud",
            reason: "Creative Cloud helper",
            risk: Risk::Low,
        },
        KnownService {
            name: "com.adobe.ccxprocess",
            reason: "Creative Cloud helper",
            risk: Risk::Low,
        },
        KnownService {
            name: "com.dropbox.DropboxMacUpdate.agent",
            reason: "Dropbox updater",
            risk: Risk::Low,
        },
    ];
    assert(service_entries(v@) =~= macos_known_services());
    v
}

/// The known background programs of `os`, common ones first.
pub fn processes(os: Os) -> (v: Vec<KnownProcess>)
    ensures
        process_entries(v@) == known_processes(os),
{
    let mut all = common_process_list();
    let mut specific = match os {
        Os::Windows => windows_process_list(),
        Os::Linux => linux_process_list(),
        Os::MacOs => macos_process_list(),
    };
    let ghost a = all@;
    let ghost b = specific@;
    all.append(&mut specific);
    assert(all@ =~= a + b);
    assert(process_entries(a + b) =~= process_entries(a) + process_entries(b));
    all
}

/// The known services of `os`.
pub fn services(os: Os) -> (v: Vec<KnownService>)
    ensures
        service_entries(v@) == known_services(os),
{
    match os {
        Os::Windows => windows_service_list(),
        Os::Linux => linux_service_list(),
        Os::MacOs => macos_service_list(),
    }
}

} // verus!
