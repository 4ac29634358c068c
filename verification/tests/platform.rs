use computequiet::platform::error::{check_identity, is_access_denied, PlatformError};
use computequiet::platform::fake::Fake;
use computequiet::platform::linux::{current_profile, parse_show, purge_route, split_unit, systemctl_args, PurgeRoute};
use computequiet::platform::macos::{domain, parse_print, target, valid_label};
use computequiet::platform::power::{active, choose_plan, is_guid, list, parse_line, set_active, set_performance, HIGH_PERFORMANCE, ULTIMATE};
use computequiet::platform::services::{query_info, scm_failure, settle_timeout, translate, ScmState};
use computequiet::platform::windows::quote_args;
use computequiet::profile::Os;
use computequiet::snapshot::{PowerPlan, ServiceState};

const GIB: u64 = 1024 * 1024 * 1024;

#[test]
fn unit_names_are_validated_and_user_units_recognised() {
    assert_eq!(split_unit("user:tracker-miner-fs-3").unwrap(), (true, "tracker-miner-fs-3".into()));
    assert_eq!(split_unit("cups").unwrap(), (false, "cups".into()));
    assert!(split_unit("--user").is_err());
    assert!(split_unit("user:").is_err());
    assert!(split_unit("a b").is_err());
}

#[test]
fn a_bad_unit_name_is_quoted_in_the_error() {
    match split_unit("a b") {
        Err(e) => assert_eq!(e.message(), "\"a b\" is not a systemd unit name"),
        Ok(_) => panic!("a space is not a unit name"),
    }
}

#[test]
fn systemctl_show_output_maps_to_service_state() {
    assert_eq!(
        parse_show("LoadState=loaded\nActiveState=active\nDescription=CUPS\n"),
        (ServiceState::Running, "CUPS".into())
    );
    assert_eq!(parse_show("LoadState=not-found\nActiveState=inactive\n").0, ServiceState::NotInstalled);
    assert_eq!(parse_show("LoadState=loaded\nActiveState=inactive\n").0, ServiceState::Stopped);
    assert_eq!(parse_show("LoadState=loaded\nActiveState=activating\n").0, ServiceState::Transitioning);
}

#[test]
fn user_units_go_to_the_user_manager() {
    let args = systemctl_args(true, "stop", "tracker-miner-fs-3", &vec![]);
    assert_eq!(args, vec!["--user", "stop", "--", "tracker-miner-fs-3"]);
    let args = systemctl_args(false, "show", "cups", &vec!["--property=LoadState".to_string()]);
    assert_eq!(args, vec!["show", "--property=LoadState", "--", "cups"]);
}

#[test]
fn the_power_profile_and_purge_route_follow_the_tools_and_rights() {
    assert_eq!(current_profile("performance\n").unwrap().id, "performance");
    assert!(current_profile("  \n").is_err());
    assert_eq!(purge_route(true, false), PurgeRoute::Direct);
    assert_eq!(purge_route(false, true), PurgeRoute::Polkit);
    assert_eq!(purge_route(false, false), PurgeRoute::Refused);
}

#[test]
fn labels_are_validated_and_launchctl_print_is_parsed() {
    assert!(valid_label("com.google.keystone.agent"));
    assert!(!valid_label("-bootout"));
    assert!(!valid_label("a b"));
    assert_eq!(parse_print("com.x = {\n\tstate = running\n}"), ServiceState::Running);
    assert_eq!(parse_print("com.x = {\n\tstate = not running\n}"), ServiceState::Stopped);
}

#[test]
fn launchctl_targets_name_the_gui_domain() {
    assert_eq!(domain(501), "gui/501");
    assert_eq!(target(501, "com.x"), "gui/501/com.x");
}

#[test]
fn arguments_with_spaces_are_quoted_for_the_relaunch() {
    assert_eq!(quote_args(&vec!["--hidden".into(), "C:\\Some Dir".into()]), "--hidden \"C:\\Some Dir\"");
}

#[test]
fn powercfg_lines_parse_and_junk_does_not() {
    let plan = parse_line("Power Scheme GUID: 381b4222-f694-41f0-9685-ff5bb260df2e  (Balanced) *").unwrap();
    assert_eq!(plan.id, "381b4222-f694-41f0-9685-ff5bb260df2e");
    assert_eq!(plan.name, "Balanced");
    let custom = parse_line("Power Scheme GUID: 8C5E7FDA-E8BF-4A96-9A85-A6E23A8C635C  (High (performance))").unwrap();
    assert_eq!(custom.name, "High (performance)");
    assert_eq!(custom.id, HIGH_PERFORMANCE);
    assert!(parse_line("Existing Power Schemes (* Active)").is_none());
    assert!(parse_line("Power Scheme GUID: not-a-guid (x)").is_none());
}

fn plans() -> Vec<PowerPlan> {
    vec![
        PowerPlan { id: "381b4222-f694-41f0-9685-ff5bb260df2e".into(), name: "Balanced".into() },
        PowerPlan { id: HIGH_PERFORMANCE.into(), name: "High performance".into() },
        PowerPlan { id: ULTIMATE.into(), name: "Ultimate Performance".into() },
    ]
}

#[test]
fn ultimate_is_preferred_over_high_performance_and_nothing_else_counts() {
    let plans = plans();
    assert_eq!(choose_plan(&plans).unwrap().id, ULTIMATE);
    assert_eq!(choose_plan(&plans[..2]).unwrap().id, HIGH_PERFORMANCE);
    assert!(choose_plan(&plans[..1]).is_none());
    assert!(set_active("'; shutdown").is_err());
}

const GETACTIVESCHEME: &str = "Power Scheme GUID: 381b4222-f694-41f0-9685-ff5bb260df2e  (Balanced)\r\n";

#[test]
fn the_active_plan_can_be_read_on_this_machine() {
    let plan = active(GETACTIVESCHEME).unwrap();
    assert!(is_guid(&plan.id));
    assert!(!plan.name.is_empty());
}

#[test]
fn unreadable_powercfg_output_is_an_error_that_quotes_it() {
    match active("Access denied.") {
        Err(e) => assert_eq!(e.message(), "could not read the active power plan from: Access denied."),
        Ok(_) => panic!("no plan in that output"),
    }
}

#[test]
fn the_plan_list_skips_the_header_and_keeps_every_scheme() {
    let output = "\r\nExisting Power Schemes (* Active)\r\n-----------------------------------\r\n\
Power Scheme GUID: 381b4222-f694-41f0-9685-ff5bb260df2e  (Balanced) *\r\n\
Power Scheme GUID: 8c5e7fda-e8bf-4a96-9a85-a6e23a8c635c  (High performance)\r\n";
    let plans = list(output);
    assert_eq!(plans.len(), 2);
    assert_eq!(plans[1].id, HIGH_PERFORMANCE);
}

#[test]
fn switching_to_performance_activates_the_fastest_plan_unless_it_is_on() {
    let plans = plans();
    let balanced = plans[0].clone();
    assert_eq!(set_performance(&balanced, &plans).unwrap(), Some(ULTIMATE.to_string()));
    assert_eq!(set_performance(&plans[2], &plans).unwrap(), None);
    match set_performance(&balanced, &plans[..1]) {
        Err(PlatformError::Unsupported(m)) => assert_eq!(m, "no performance power plan is installed"),
        _ => panic!("no performance plan is installed"),
    }
    assert_eq!(set_active(HIGH_PERFORMANCE).unwrap(), vec!["/setactive", HIGH_PERFORMANCE]);
}

#[test]
fn a_well_known_service_is_queryable_and_a_missing_one_is_not_installed() {
    let eventlog = query_info("EventLog", Some(ScmState::Running), Some("Windows Event Log".into()));
    assert_ne!(eventlog.state, ServiceState::NotInstalled);
    assert!(!eventlog.display_name.is_empty());
    let missing = query_info("ComputeQuietNoSuchService", None, None);
    assert_eq!(missing.state, ServiceState::NotInstalled);
    assert_eq!(missing.display_name, "ComputeQuietNoSuchService");
}

#[test]
fn service_manager_answers_are_classified() {
    assert_eq!(translate(ScmState::StopPending), ServiceState::Transitioning);
    assert_eq!(translate(ScmState::Stopped), ServiceState::Stopped);
    let io = || std::io::Error::new(std::io::ErrorKind::Other, "x");
    assert!(scm_failure("SysMain", "stopping service", Some(5), io()).needs_elevation());
    assert!(matches!(scm_failure("SysMain", "stopping service", Some(1060), io()), PlatformError::NotInstalled(n) if n == "SysMain"));
    match scm_failure("SysMain", "stopping service", Some(2), io()) {
        PlatformError::Io { context, .. } => assert_eq!(context, "stopping service SysMain"),
        _ => panic!("other codes keep their cause"),
    }
    assert_eq!(settle_timeout("SysMain", ScmState::Stopped).message(), "service SysMain did not reach Stopped within 30s");
}

#[test]
fn access_denied_codes_differ_by_platform() {
    assert!(is_access_denied(Some(5), Os::Windows));
    assert!(!is_access_denied(Some(13), Os::Windows));
    assert!(is_access_denied(Some(13), Os::Linux));
    assert!(is_access_denied(Some(1), Os::MacOs));
    assert!(!is_access_denied(None, Os::Linux));
    let denied = PlatformError::from_os("suspending".into(), std::io::Error::from_raw_os_error(13), Os::Linux);
    assert!(denied.needs_elevation());
    assert_eq!(denied.message(), "administrator rights are required");
    let other = PlatformError::from_os("suspending".into(), std::io::Error::from_raw_os_error(3), Os::Linux);
    assert!(!other.needs_elevation());
    assert!(other.message().starts_with("suspending: "), "{}", other.message());
}

#[test]
fn a_reused_pid_is_not_running() {
    assert!(check_identity(10, 5, Some(5)).is_ok());
    assert_eq!(check_identity(10, 5, None).unwrap_err().message(), "PID 10 is not running");
    assert_eq!(
        check_identity(10, 5, Some(6)).unwrap_err().message(),
        "PID 10 (it now belongs to a different program) is not running"
    );
}

fn used_now(fake: &Fake) -> u64 {
    6 * GIB + fake.snapshot(&vec![]).unwrap().processes.iter().map(|p| p.memory_bytes).sum::<u64>()
}

#[test]
fn a_full_cycle_is_reflected_in_the_next_snapshot() {
    let mut fake = Fake::new();
    let names = vec!["SysMain".to_string(), "Missing".to_string()];
    let before = fake.snapshot(&names).unwrap();
    assert_eq!(before.services[0].state, ServiceState::Running);
    assert_eq!(before.services[1].state, ServiceState::NotInstalled);

    fake.suspend(100, 1_700_000_100).unwrap();
    fake.close(101, 1_700_000_101).unwrap();
    fake.stop_service("sysmain").unwrap();
    let previous = fake.set_performance_power().unwrap();
    assert_eq!(previous.name, "Balanced");
    assert!(fake.memory_fits());
    assert!(fake.stats().unwrap().memory_used < used_now(&fake));

    assert!(fake.suspend(100, 1).is_err(), "wrong start time must not match");
    fake.resume(100, 1_700_000_100).unwrap();
    fake.launch("C:/fake/Dropbox.exe", &vec!["Dropbox.exe".into()], None).unwrap();
    fake.start_service("SysMain").unwrap();
    fake.restore_power(&previous).unwrap();

    let after = fake.snapshot(&names).unwrap();
    assert!(after.processes.iter().any(|p| p.name == "Dropbox.exe"));
    assert_eq!(after.services[0].state, ServiceState::Running);
    assert_eq!(after.power_plan, Some(previous));
}

#[test]
fn the_fake_machine_starts_seeded_and_reports_its_figures() {
    let fake = Fake::new();
    let snapshot = fake.snapshot(&vec!["diagtrack".to_string()]).unwrap();
    assert_eq!(snapshot.processes.len(), 7);
    assert_eq!(snapshot.processes[0].name, "explorer.exe");
    assert_eq!(snapshot.processes[6].exe.as_deref(), Some("C:/fake/render-farm.exe"));
    assert_eq!(snapshot.services[0].state, ServiceState::Stopped);
    assert_eq!(snapshot.services[0].display_name, "diagtrack (fake)");
    let stats = fake.stats().unwrap();
    let live = (120 + 210 + 180 + 12 + 640 + 2048 + 900) * 1024 * 1024;
    assert_eq!(stats.memory_used, 6 * GIB + live);
    assert_eq!(stats.memory_available, 32 * GIB - stats.memory_used);
    assert_eq!(stats.memory_free + 2 * GIB, stats.memory_available);
    assert_eq!(stats.cpu_millionths, 23_000_000);
    assert_eq!(stats.process_count, 7);
    let activity = fake.activity();
    assert!(activity.known);
    assert_eq!(activity.foreground_pid, Some(300));
    assert_eq!(activity.windowed_pids, vec![4, 300]);
    assert_eq!(fake.os(), Os::Windows);
    assert!(fake.capabilities().elevated && !fake.capabilities().can_elevate);
}

#[test]
fn suspending_twice_and_resuming_once_leaves_the_process_running() {
    let mut fake = Fake::new();
    fake.suspend(103, 1_700_000_103).unwrap();
    fake.suspend(103, 1_700_000_103).unwrap();
    assert_eq!(fake.stats().unwrap().cpu_millionths, 4_000_000);
    fake.resume(103, 1_700_000_103).unwrap();
    assert_eq!(fake.stats().unwrap().cpu_millionths, 23_000_000);
}

#[test]
fn the_fake_refuses_what_it_cannot_do() {
    let mut fake = Fake::new();
    assert_eq!(fake.close(999, 0).unwrap_err().message(), "PID 999 is not running");
    assert_eq!(fake.stop_service("Nope").unwrap_err().message(), "Nope is not installed");
    assert_eq!(fake.relaunch_elevated("C:/x.exe", &vec![]).unwrap_err().message(), "the fake platform is always elevated");
    fake.purge_memory().unwrap();
    fake.launch("C:/games/", &vec![], Some("C:/games")).unwrap();
    let last = fake.snapshot(&vec![]).unwrap().processes.pop().unwrap();
    assert_eq!(last.pid, 1000);
    assert_eq!(last.name, "games");
    assert_eq!(last.cwd.as_deref(), Some("C:/games"));
    assert_eq!(last.start_time, 1_700_001_000);
}
