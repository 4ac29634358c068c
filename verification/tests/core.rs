use std::collections::HashSet;

use computequiet::catalogue::{self, Risk};
use computequiet::error::CoreError;
use computequiet::journal::{DoneStep, Journal, RestoreStep, CURRENT_VERSION};
use computequiet::plan::{build_plan, Capabilities, Skipped, Step};
use computequiet::policy::{is_critical, normalize};
use computequiet::profile::{Os, PowerPolicy, ProcessAction, ProcessTarget, Profile, ServiceTarget};
use computequiet::recommend::{
    apply, is_performance_plan, recommend, service_names_to_query, Recommendation, RecommendationKind,
};
use computequiet::settings::{Settings, Theme};
use computequiet::snapshot::{
    file_name, file_stem, Activity, PowerPlan, ProcessInfo, ServiceInfo, ServiceState, Snapshot, SystemStats,
};
use computequiet::store::{resolve_data_dir, temp_file_name, DataDir};

#[test]
fn the_catalogue_never_names_a_critical_process_and_has_no_duplicates() {
    for os in [Os::Windows, Os::Linux, Os::MacOs] {
        let mut seen = HashSet::new();
        for known in catalogue::processes(os) {
            assert!(!is_critical(known.name, os), "{:?}: {}", os, known.name);
            assert!(!known.reason.is_empty());
            assert!(seen.insert(normalize(known.name)), "{:?} lists {} twice", os, known.name);
        }
        let mut services_seen = HashSet::new();
        for known in catalogue::services(os) {
            assert!(services_seen.insert(known.name.to_ascii_lowercase()), "{}", known.name);
        }
    }
}

#[test]
fn names_match_case_insensitively_and_without_exe() {
    assert!(computequiet::policy::matches("OneDrive", "onedrive.exe", None));
    assert!(computequiet::policy::matches("onedrive.exe", "OneDrive", None));
    assert!(!computequiet::policy::matches("OneDrive", "OneDriveSetup", None));
    assert!(!computequiet::policy::matches("", "anything", None));
}

#[test]
fn a_truncated_linux_name_matches_through_the_exe_stem_or_prefix() {
    assert!(computequiet::policy::matches("tracker-miner-fs-3", "tracker-miner-f", Some("tracker-miner-fs-3")));
    assert!(computequiet::policy::matches("tracker-miner-fs-3", "tracker-miner-f", None));
    assert!(!computequiet::policy::matches("tracker-miner-fs-3", "tracker-miner", None));
}

#[test]
fn the_shell_and_this_app_are_critical_everywhere_relevant() {
    assert!(is_critical("explorer.exe", Os::Windows));
    assert!(is_critical("DWM", Os::Windows));
    assert!(is_critical("gnome-shell", Os::Linux));
    assert!(is_critical("WindowServer", Os::MacOs));
    for os in [Os::Windows, Os::Linux, Os::MacOs] {
        assert!(is_critical("ComputeQuiet.exe", os));
    }
    assert!(!is_critical("OneDrive", Os::Windows));
}

#[test]
fn normalising_trims_folds_case_and_drops_exe() {
    assert_eq!(normalize("  OneDrive.EXE "), "onedrive");
    assert_eq!(normalize("Slack.exe"), "slack");
    assert_eq!(normalize("Slack.Exe"), "slack");
    assert_eq!(normalize("SLACK.eXe"), normalize("slack.exe"));
    assert_eq!(normalize("   "), "");
}

#[test]
fn every_default_target_is_enabled_and_none_is_critical() {
    for os in [Os::Windows, Os::Linux, Os::MacOs] {
        let profile = Profile::default_for(os);
        assert!(!profile.processes.is_empty());
        assert!(!profile.services.is_empty());
        for target in &profile.processes {
            assert!(target.enabled, "{:?} {}", os, target.name);
            assert!(!is_critical(&target.name, os), "{:?} default targets a critical process: {}", os, target.name);
        }
    }
}

#[test]
fn the_default_profile_parks_by_suspending_and_switches_power() {
    let profile = Profile::default_for(Os::Windows);
    assert_eq!(profile.processes[0].name, "OneDrive");
    assert_eq!(profile.services[0].name, "SysMain");
    assert!(profile.processes.iter().all(|t| t.action == ProcessAction::Suspend));
    assert_eq!(profile.power, PowerPolicy::Performance);
    assert!(profile.purge_memory);
    assert!(profile.keep_alive.is_empty());
}

fn process(pid: u32, name: &str) -> ProcessInfo {
    ProcessInfo {
        pid,
        name: name.to_string(),
        exe: Some(format!("C:/apps/{name}.exe")),
        args: vec![format!("{name}.exe"), "--background".to_string()],
        cwd: None,
        memory_bytes: 1,
        cpu_millionths: 0,
        start_time: 42,
    }
}

fn service(name: &str, state: ServiceState) -> ServiceInfo {
    ServiceInfo { name: name.to_string(), display_name: name.to_string(), state }
}

fn full_caps() -> Capabilities {
    Capabilities { services: true, power: true, memory_purge: true, elevated: true, can_elevate: true }
}

#[test]
fn a_running_hog_is_parked_and_a_missing_one_is_reported() {
    let mut profile = Profile::default_for(Os::Windows);
    profile.processes = vec![
        ProcessTarget { name: "OneDrive".into(), action: ProcessAction::Suspend, enabled: true },
        ProcessTarget { name: "Dropbox".into(), action: ProcessAction::Close, enabled: true },
        ProcessTarget { name: "Slack".into(), action: ProcessAction::Suspend, enabled: true },
    ];
    profile.services = vec![ServiceTarget { name: "SysMain".into(), enabled: true }];
    let snapshot = Snapshot {
        processes: vec![process(10, "OneDrive.exe"), process(11, "Dropbox.exe"), process(12, "explorer.exe")],
        services: vec![service("SysMain", ServiceState::Running)],
        power_plan: None,
    };
    let plan = build_plan(&profile, &snapshot, 1, Os::Windows, &full_caps());
    let labels: Vec<_> = plan.steps.iter().map(Step::label).collect();
    assert_eq!(
        labels,
        vec![
            "Switch to the performance power plan",
            "Stop service SysMain",
            "Suspend OneDrive.exe (PID 10)",
            "Close Dropbox.exe (PID 11)",
            "Purge cached memory",
        ]
    );
    assert_eq!(plan.skipped, vec![Skipped { name: "Slack".into(), reason: "not running".into() }]);
}

#[test]
fn critical_keep_alive_and_self_are_never_planned() {
    let mut profile = Profile::default_for(Os::Windows);
    profile.processes = vec![
        ProcessTarget { name: "explorer".into(), action: ProcessAction::Close, enabled: true },
        ProcessTarget { name: "ComputeQuiet".into(), action: ProcessAction::Suspend, enabled: true },
        ProcessTarget { name: "Spotify".into(), action: ProcessAction::Suspend, enabled: true },
    ];
    profile.keep_alive = vec!["spotify.exe".into()];
    profile.services.clear();
    profile.power = PowerPolicy::Leave;
    profile.purge_memory = false;
    let snapshot = Snapshot {
        processes: vec![process(1, "explorer.exe"), process(2, "ComputeQuiet.exe"), process(3, "Spotify.exe")],
        ..Snapshot::default()
    };
    let plan = build_plan(&profile, &snapshot, 2, Os::Windows, &full_caps());
    assert!(plan.steps.is_empty(), "{:?}", plan.steps);
    let reasons: Vec<_> = plan.skipped.iter().map(|s| s.reason.as_str()).collect();
    assert_eq!(
        reasons,
        vec!["protected: essential to the desktop", "protected: essential to the desktop", "on your keep-alive list"]
    );
}

#[test]
fn unelevated_services_and_purge_are_skipped_with_the_reason_shown() {
    let mut profile = Profile::default_for(Os::Windows);
    profile.processes.clear();
    profile.services = vec![ServiceTarget { name: "WSearch".into(), enabled: true }];
    let snapshot = Snapshot { services: vec![service("WSearch", ServiceState::Running)], ..Snapshot::default() };
    let caps = Capabilities { services: false, power: true, memory_purge: false, elevated: false, can_elevate: true };
    let plan = build_plan(&profile, &snapshot, 1, Os::Windows, &caps);
    assert_eq!(plan.steps, vec![Step::SetPerformancePower]);
    assert!(plan.skipped.iter().all(|s| s.reason == "needs administrator rights"), "{:?}", plan.skipped);
    assert_eq!(plan.skipped.len(), 2);
}

#[test]
fn services_that_are_stopped_changing_or_missing_are_skipped_with_their_reason() {
    let mut profile = Profile::default_for(Os::Windows);
    profile.processes.clear();
    profile.power = PowerPolicy::Leave;
    profile.purge_memory = false;
    profile.services = vec![
        ServiceTarget { name: "A".into(), enabled: true },
        ServiceTarget { name: "B".into(), enabled: true },
        ServiceTarget { name: "C".into(), enabled: true },
        ServiceTarget { name: "D".into(), enabled: false },
    ];
    let snapshot = Snapshot {
        services: vec![service("a", ServiceState::Stopped), service("B", ServiceState::Transitioning)],
        ..Snapshot::default()
    };
    let plan = build_plan(&profile, &snapshot, 1, Os::Windows, &full_caps());
    assert!(plan.steps.is_empty());
    let skipped: Vec<_> = plan.skipped.iter().map(|s| (s.name.as_str(), s.reason.as_str())).collect();
    assert_eq!(skipped, vec![("A", "already stopped"), ("B", "changing state"), ("C", "not installed")]);
}

#[test]
fn a_process_is_claimed_by_one_target_only() {
    let mut profile = Profile::default_for(Os::Windows);
    profile.services.clear();
    profile.power = PowerPolicy::Leave;
    profile.purge_memory = false;
    profile.processes = vec![
        ProcessTarget { name: "Slack".into(), action: ProcessAction::Suspend, enabled: true },
        ProcessTarget { name: "slack.exe".into(), action: ProcessAction::Close, enabled: true },
    ];
    let snapshot = Snapshot { processes: vec![process(7, "Slack.exe")], ..Snapshot::default() };
    let plan = build_plan(&profile, &snapshot, 1, Os::Windows, &full_caps());
    assert_eq!(plan.steps, vec![Step::SuspendProcess { pid: 7, name: "Slack.exe".into(), start_time: 42 }]);
    assert_eq!(plan.skipped, vec![Skipped { name: "slack.exe".into(), reason: "not running".into() }]);
}

fn sample() -> Journal {
    let mut journal = Journal::new(1_700_000_000);
    journal.record(DoneStep::PowerPlanChanged { previous: PowerPlan { id: "balanced".into(), name: "Balanced".into() } });
    journal.record(DoneStep::ServiceStopped { name: "SysMain".into() });
    journal.record(DoneStep::ProcessSuspended { pid: 10, name: "OneDrive.exe".into(), start_time: 5 });
    journal.record(DoneStep::ProcessClosed {
        name: "Dropbox.exe".into(),
        exe: Some("C:/d/Dropbox.exe".into()),
        args: vec!["Dropbox.exe".into()],
        cwd: None,
    });
    journal.record(DoneStep::ProcessClosed {
        name: "Dropbox.exe".into(),
        exe: Some("C:/d/Dropbox.exe".into()),
        args: vec!["Dropbox.exe".into()],
        cwd: None,
    });
    journal.record(DoneStep::MemoryPurged);
    journal
}

#[test]
fn restore_runs_in_reverse_and_relaunches_a_program_once() {
    let labels: Vec<_> = sample().restore_steps().into_iter().map(|(_, step)| step.label()).collect();
    assert_eq!(
        labels,
        vec![
            "Relaunch Dropbox.exe",
            "Resume OneDrive.exe (PID 10)",
            "Start service SysMain",
            "Restore the Balanced power plan",
        ]
    );
}

#[test]
fn programs_closed_without_a_recorded_path_are_relaunched_once_per_argument_list() {
    let mut journal = Journal::new(0);
    journal.record(DoneStep::ProcessClosed { name: "a".into(), exe: None, args: vec!["a".into()], cwd: None });
    journal.record(DoneStep::ProcessClosed { name: "b".into(), exe: None, args: vec!["b".into()], cwd: None });
    journal.record(DoneStep::ProcessClosed { name: "b".into(), exe: None, args: vec!["b".into()], cwd: None });
    let indices: Vec<_> = journal.restore_steps().into_iter().map(|(i, _)| i).collect();
    assert_eq!(indices, vec![2, 0]);
}

#[test]
fn an_executable_closed_with_different_arguments_is_relaunched_once_from_its_newest_entry() {
    let mut journal = Journal::new(0);
    journal.record(DoneStep::ProcessClosed {
        name: "Teams.exe".into(),
        exe: Some("C:/t/Teams.exe".into()),
        args: vec!["Teams.exe".into(), "--type=renderer".into()],
        cwd: None,
    });
    journal.record(DoneStep::ProcessClosed {
        name: "Teams.exe".into(),
        exe: Some("C:/t/Teams.exe".into()),
        args: vec!["Teams.exe".into()],
        cwd: None,
    });
    journal.record(DoneStep::ProcessClosed {
        name: "Code.exe".into(),
        exe: Some("C:/c/Code.exe".into()),
        args: vec![],
        cwd: None,
    });
    let indices: Vec<_> = journal.restore_steps().into_iter().map(|(i, _)| i).collect();
    assert_eq!(indices, vec![2, 1]);
}

#[test]
fn restore_steps_carry_the_index_of_their_journal_entry() {
    let indices: Vec<_> = sample().restore_steps().into_iter().map(|(i, _)| i).collect();
    assert_eq!(indices, vec![4, 2, 1, 0]);
    let steps = sample().restore_steps();
    assert_eq!(steps[1].1, RestoreStep::ResumeProcess { pid: 10, name: "OneDrive.exe".into(), start_time: 5 });
}

#[test]
fn a_failed_restore_keeps_only_that_entry() {
    let mut journal = sample();
    let failed: HashSet<usize> = [1usize].into_iter().collect();
    journal.retain(&failed);
    assert_eq!(journal.done, vec![DoneStep::ServiceStopped { name: "SysMain".into() }]);
}

#[test]
fn the_journal_survives_a_round_trip_and_a_newer_version_is_refused() {
    assert!(Journal::load(None, "journal.json").unwrap().is_none());
    let journal = sample();
    assert_eq!(Journal::load(Some(journal.clone()), "journal.json").unwrap(), Some(journal.clone()));
    assert_eq!(journal.summary().processes_closed, 2);
    assert!(journal.summary().memory_purged);

    let mut newer = journal;
    newer.version = CURRENT_VERSION + 1;
    match Journal::load(Some(newer), "/state/journal.json") {
        Err(CoreError::Invalid(message)) => assert_eq!(
            message,
            "/state/journal.json was written by a newer ComputeQuiet (version 2); update the app before restoring"
        ),
        other => panic!("expected a refusal, got {other:?}"),
    }
}

#[test]
fn the_summary_counts_each_kind_of_entry() {
    let summary = sample().summary();
    assert_eq!(summary.services_stopped, 1);
    assert_eq!(summary.processes_suspended, 1);
    assert_eq!(summary.processes_closed, 2);
    assert!(summary.power_changed);
    assert!(summary.memory_purged);
    let empty = Journal::new(0).summary();
    assert_eq!(empty.services_stopped + empty.processes_suspended + empty.processes_closed, 0);
    assert!(!empty.power_changed && !empty.memory_purged);
}

fn rec_process(pid: u32, name: &str, mib: u64) -> ProcessInfo {
    ProcessInfo {
        pid,
        name: name.into(),
        exe: Some(format!("C:/x/{name}")),
        args: vec![],
        cwd: None,
        memory_bytes: mib * 1024 * 1024,
        cpu_millionths: 500_000,
        start_time: 1,
    }
}

fn caps() -> Capabilities {
    Capabilities { services: true, power: true, memory_purge: true, elevated: true, can_elevate: false }
}

fn stats(cached_gib: u64) -> SystemStats {
    SystemStats {
        cpu_millionths: 10_000_000,
        memory_total: 32 << 30,
        memory_used: 10 << 30,
        memory_available: (20 << 30) + (cached_gib << 30),
        memory_free: 20 << 30,
        process_count: 5,
    }
}

#[test]
fn known_hogs_are_found_and_already_targeted_ones_are_marked() {
    let mut profile = Profile::default_for(Os::Windows);
    profile.processes.retain(|t| t.name == "OneDrive");
    profile.services.clear();
    profile.power = PowerPolicy::Leave;
    profile.purge_memory = false;
    let snapshot = Snapshot {
        processes: vec![
            rec_process(10, "OneDrive.exe", 200),
            rec_process(11, "GoogleUpdate.exe", 10),
            rec_process(12, "explorer.exe", 100),
            rec_process(13, "Discord.exe", 500),
        ],
        services: vec![ServiceInfo {
            name: "WSearch".into(),
            display_name: "Windows Search".into(),
            state: ServiceState::Running,
        }],
        power_plan: Some(PowerPlan { id: "381b4222-f694-41f0-9685-ff5bb260df2e".into(), name: "Balanced".into() }),
    };
    let items = recommend(&profile, &snapshot, &stats(2), &Activity::default(), 1, Os::Windows, &caps());
    let names: Vec<_> = items.iter().map(|i| (i.name.as_str(), i.risk, i.already_targeted)).collect();
    assert_eq!(
        names,
        vec![
            ("Cached memory", Risk::Low, false),
            ("OneDrive.exe", Risk::Low, true),
            ("GoogleUpdate.exe", Risk::Low, false),
            ("Power plan: Balanced", Risk::Low, false),
            ("WSearch", Risk::Low, false),
            ("Discord.exe", Risk::Medium, false),
        ]
    );
    assert!(!names.iter().any(|(n, ..)| *n == "explorer.exe"));
}

#[test]
fn unknown_processes_need_window_information_and_size() {
    let mut profile = Profile::default_for(Os::Windows);
    profile.processes.clear();
    profile.services.clear();
    profile.purge_memory = false;
    profile.power = PowerPolicy::Leave;
    let snapshot = Snapshot {
        processes: vec![
            rec_process(20, "render-farm.exe", 900),
            rec_process(21, "editor.exe", 900),
            rec_process(22, "tiny-helper.exe", 5),
        ],
        ..Snapshot::default()
    };
    let none = recommend(&profile, &snapshot, &stats(0), &Activity::default(), 1, Os::Windows, &caps());
    assert!(none.is_empty(), "without window info nothing unknown is guessed: {none:?}");

    let activity = Activity { known: true, foreground_pid: Some(21), windowed_pids: vec![21] };
    let items = recommend(&profile, &snapshot, &stats(0), &activity, 1, Os::Windows, &caps());
    let names: Vec<_> = items.iter().map(|i| i.name.as_str()).collect();
    assert_eq!(names, vec!["render-farm.exe"]);
    assert_eq!(items[0].risk, Risk::Medium);
}

#[test]
fn keep_alive_hides_a_program_and_unelevated_hides_services() {
    let mut profile = Profile::default_for(Os::Windows);
    profile.keep_alive.push("dropbox".into());
    let snapshot = Snapshot {
        processes: vec![rec_process(1, "Dropbox.exe", 100)],
        services: vec![ServiceInfo {
            name: "SysMain".into(),
            display_name: "SysMain".into(),
            state: ServiceState::Running,
        }],
        power_plan: None,
    };
    let mut unelevated = caps();
    unelevated.services = false;
    unelevated.memory_purge = false;
    let items = recommend(&profile, &snapshot, &stats(4), &Activity::default(), 1, Os::Windows, &unelevated);
    assert!(items.is_empty(), "{items:?}");
}

fn accepted(kind: RecommendationKind, name: &str, already_targeted: bool) -> Recommendation {
    Recommendation {
        kind,
        name: name.into(),
        reason: String::new(),
        risk: Risk::Low,
        memory_bytes: 0,
        cpu_millionths: 0,
        instances: 1,
        already_targeted,
    }
}

#[test]
fn applying_adds_new_targets_once_and_flips_the_flags() {
    let mut profile = Profile::default_for(Os::Linux);
    profile.processes.clear();
    profile.power = PowerPolicy::Leave;
    profile.purge_memory = false;
    let accepted = vec![
        accepted(RecommendationKind::Process { action: ProcessAction::Suspend }, "dropbox", false),
        accepted(RecommendationKind::Service, "cups", true),
        accepted(RecommendationKind::PowerPlan, "Power plan", false),
    ];
    let next = apply(&apply(&profile, &accepted), &accepted);
    assert_eq!(next.processes.len(), 1);
    assert_eq!(next.services.len(), profile.services.len(), "cups was already a target");
    assert_eq!(next.power, PowerPolicy::Performance);
    assert!(!next.purge_memory);
    assert_eq!(service_names_to_query(&next, Os::Linux).len(), catalogue::services(Os::Linux).len());
}

#[test]
fn applying_twice_is_the_same_as_applying_once() {
    let profile = Profile::default_for(Os::Windows);
    let accepted = vec![
        accepted(RecommendationKind::Process { action: ProcessAction::Close }, "render-farm.exe", false),
        accepted(RecommendationKind::MemoryPurge, "Cached memory", false),
    ];
    let once = apply(&profile, &accepted);
    let twice = apply(&once, &accepted);
    assert_eq!(once, twice);
    assert_eq!(once.processes.len(), profile.processes.len() + 1);
    assert_eq!(once.processes.last().unwrap().action, ProcessAction::Close);
}

#[test]
fn a_custom_plan_named_for_performance_is_not_a_saving() {
    assert!(is_performance_plan("c3f0a1b2-0000-4000-8000-000000000001", "Revision - Ultra Performance"));
    assert!(is_performance_plan("8c5e7fda-e8bf-4a96-9a85-a6e23a8c635c", "High performance"));
    assert!(is_performance_plan("performance", "performance"));
    assert!(!is_performance_plan("381b4222-f694-41f0-9685-ff5bb260df2e", "Balanced"));
    assert!(!is_performance_plan("power-saver", "power-saver"));
}

#[test]
fn missing_settings_are_defaults_and_saved_ones_come_back() {
    let loaded = Settings::load(None, Os::Linux, "settings.json").unwrap();
    assert_eq!(loaded, Settings::default_for(Os::Linux));

    let mut changed = loaded;
    changed.start_hidden = true;
    changed.theme = Theme::Light;
    changed.profile.keep_alive.push("obs".into());
    assert_eq!(Settings::load(Some(changed.clone()), Os::Linux, "settings.json").unwrap(), changed);
}

#[test]
fn a_newer_settings_file_is_an_error_not_a_reset() {
    let mut newer = Settings::default_for(Os::Linux);
    newer.version = 2;
    assert!(Settings::load(Some(newer), Os::Linux, "settings.json").is_err());
}

#[test]
fn hostile_names_are_refused_before_they_are_saved() {
    let mut settings = Settings::default_for(Os::Windows);
    settings.profile.processes.push(ProcessTarget {
        name: "bad\u{0}name".into(),
        action: ProcessAction::Suspend,
        enabled: true,
    });
    match settings.validate() {
        Err(CoreError::Invalid(message)) => {
            assert_eq!(message, "process name \"bad\\0name\" contains control characters");
        }
        other => panic!("expected a refusal, got {other:?}"),
    }
    assert!(Settings::load(Some(settings.clone()), Os::Windows, "settings.json").is_err());

    settings.profile.processes.pop();
    settings.profile.keep_alive.push("   ".into());
    assert!(settings.validate().is_err());
}

#[test]
fn keep_alive_names_are_checked_for_control_characters_and_length() {
    let mut settings = Settings::default_for(Os::Windows);
    settings.profile.keep_alive.push("bad\u{0}name".into());
    match settings.validate() {
        Err(CoreError::Invalid(message)) => {
            assert!(message.contains("\"bad\\0name\""), "{message}");
            assert!(message.ends_with("contains control characters"), "{message}");
        }
        other => panic!("expected a refusal, got {other:?}"),
    }
    settings.profile.keep_alive = vec!["x".repeat(129)];
    assert!(settings.validate().is_err());
    settings.profile.keep_alive = vec!["x".repeat(128)];
    assert!(settings.validate().is_ok());
}

#[test]
fn the_default_settings_are_valid() {
    for os in [Os::Windows, Os::Linux, Os::MacOs] {
        assert!(Settings::default_for(os).validate().is_ok());
    }
}

#[test]
fn core_errors_say_what_they_were_doing() {
    assert_eq!(CoreError::NoDataDir.message(), "no configuration directory is available on this system");
    assert_eq!(CoreError::Invalid("x".into()).message(), "x");
    let io = CoreError::io("reading a".into(), std::io::Error::new(std::io::ErrorKind::Other, "disk gone"));
    assert_eq!(io.message(), "reading a: disk gone");
    let parse_error = serde_json::from_str::<u32>("{").unwrap_err();
    let cause = parse_error.to_string();
    let json = CoreError::json("parsing b".into(), parse_error);
    assert_eq!(json.message(), format!("parsing b: {cause}"));
}

#[test]
fn the_override_wins_and_an_empty_override_is_ignored() {
    match resolve_data_dir(Some("/portable"), Some("/cfg".into())) {
        Ok(DataDir::Override(dir)) => assert_eq!(dir, "/portable"),
        _ => panic!("the override must win"),
    }
    match resolve_data_dir(Some(""), Some("/cfg".into())) {
        Ok(DataDir::UnderConfig(root)) => assert_eq!(root, "/cfg"),
        _ => panic!("an empty override is ignored"),
    }
    assert!(matches!(resolve_data_dir(None, None), Err(CoreError::NoDataDir)));
}

#[test]
fn a_temporary_file_is_hidden_beside_its_target() {
    assert_eq!(temp_file_name("state.json", 4321), ".state.json.tmp-4321");
}

#[test]
fn file_names_and_stems_come_from_the_last_component() {
    assert_eq!(file_name("C:/fake/Dropbox.exe").as_deref(), Some("Dropbox.exe"));
    assert_eq!(file_name("C:\\Program Files\\App\\app.exe").as_deref(), Some("app.exe"));
    assert_eq!(file_name("/usr/bin/"), Some("bin".to_string()));
    assert_eq!(file_name("/usr/.."), None);
    assert_eq!(file_stem("/opt/x/tracker-miner-fs-3").as_deref(), Some("tracker-miner-fs-3"));
    assert_eq!(file_stem("C:/x/archive.tar.gz").as_deref(), Some("archive.tar"));
    assert_eq!(file_stem("/home/me/.bashrc").as_deref(), Some(".bashrc"));
}
