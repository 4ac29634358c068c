use computequiet::catalogue::Risk;
use computequiet::error::CoreError;
use computequiet::journal::{DoneStep, Journal, RestoreStep, Summary};
use computequiet::plan::Step;
use computequiet::platform::error::PlatformError;
use computequiet::platform::fake::Fake;
use computequiet::profile::{Os, PowerPolicy, ProcessAction, ProcessTarget, ServiceTarget};
use computequiet::recommend::{service_names_to_query, RecommendationKind};
use computequiet::settings::Settings;
use computequiet::shell::ai::{
    check_model, claude_answer, claude_args, codex_args, codex_final_text, prompt, validate, ClaudeAnswer, INSTRUCTIONS, counter_available
};
use computequiet::shell::autostart::{check_change, create_task_args, refusal, status, task_is_elevated};
use computequiet::shell::commands::{quit_after_restore, relaunch_refusal};
use computequiet::shell::engine::{completed, missing_path, Engine};
use computequiet::shell::error::AppError;
use computequiet::shell::helper::helper_result;
use computequiet::shell::model::{Advice, Assessment, Preference, Provider, Recommendation, Snapshot, Workload};
use computequiet::shell::rows::fold_processes;
use computequiet::shell::scan::{low_risk_additions, scan_report};
use computequiet::shell::tray::{
    click_hides_window, menu_action, notification_body, status_label, toggle_label, tray_look, tray_quit, MenuAction,
    TrayQuit, ID_QUIT, ID_SHOW, ID_TOGGLE,
};
use computequiet::snapshot::{PowerPlan, ProcessInfo};

const SELF_PID: u32 = 77;

fn engine(fake: &Fake, journal: Option<Journal>) -> Engine {
    Engine::new(fake.os(), fake.capabilities(), "/state".into(), Ok(Settings::default_for(fake.os())), Ok(journal))
}

/// One quiet run driven against the fake machine, as the app drives it.
fn go_quiet(engine: &mut Engine, fake: &mut Fake) -> Result<Summary, AppError> {
    let names = engine.start_quiet()?;
    let snapshot = fake.snapshot(&names).map_err(AppError::from_platform)?;
    let found = if engine.settings.auto_scan {
        let stats = fake.stats().map_err(AppError::from_platform)?;
        let report = scan_report(
            &engine.settings.profile,
            &snapshot,
            &stats,
            &fake.activity(),
            SELF_PID,
            engine.os,
            &engine.capabilities,
            1,
        );
        report.recommendations
    } else {
        Vec::new()
    };
    let mut run = engine.plan_quiet(&snapshot, &found, SELF_PID, 1_700_000_500);
    while let Some(step) = run.current() {
        let outcome = match step {
            Step::SetPerformancePower => fake.set_performance_power().map(Some),
            Step::StopService { name } => fake.stop_service(name).map(|()| None),
            Step::SuspendProcess { pid, start_time, .. } => fake.suspend(*pid, *start_time).map(|()| None),
            Step::CloseProcess { pid, start_time, .. } => fake.close(*pid, *start_time).map(|()| None),
            Step::PurgeMemory => fake.purge_memory().map(|()| None),
        };
        run.record(outcome.map_err(AppError::from_platform));
    }
    Ok(engine.finish_quiet(run))
}

/// One restore driven against the fake machine.
fn restore(engine: &mut Engine, fake: &mut Fake) -> Result<usize, AppError> {
    let mut run = engine.start_restore()?;
    while let Some(step) = run.current() {
        let outcome = match step {
            RestoreStep::ResumeProcess { pid, start_time, .. } => {
                fake.resume(*pid, *start_time).map_err(AppError::from_platform)
            }
            RestoreStep::Relaunch { exe: None, .. } => Err(missing_path()),
            RestoreStep::Relaunch { exe: Some(exe), args, cwd, .. } => {
                fake.launch(exe, args, cwd.as_deref()).map_err(AppError::from_platform)
            }
            RestoreStep::StartService { name } => fake.start_service(name).map_err(AppError::from_platform),
            RestoreStep::RestorePowerPlan { plan } => fake.restore_power(plan).map_err(AppError::from_platform),
        };
        run.record(outcome);
    }
    Ok(engine.finish_restore(run))
}

#[test]
fn quiet_then_restore_round_trips_through_the_journal_on_disk() {
    let mut fake = Fake::new();
    let mut engine = engine(&fake, None);
    let mut settings = engine.settings();
    settings.auto_scan = false;
    settings.profile.services = vec![ServiceTarget { name: "SysMain".into(), enabled: true }];
    settings.profile.processes = ["OneDrive", "Slack"]
        .into_iter()
        .map(|name| ProcessTarget { name: name.into(), action: ProcessAction::Suspend, enabled: true })
        .chain(std::iter::once(ProcessTarget { name: "Dropbox".into(), action: ProcessAction::Close, enabled: true }))
        .collect();
    assert!(settings.validate().is_ok());
    engine.set_settings(settings);

    let summary = go_quiet(&mut engine, &mut fake).unwrap();
    assert_eq!(summary.services_stopped, 1);
    assert_eq!(summary.processes_suspended, 2, "OneDrive, Slack");
    assert_eq!(summary.processes_closed, 1, "Dropbox");
    assert!(summary.power_changed && summary.memory_purged);
    let journal = engine.journal.clone().unwrap();
    assert!(engine.state().quiet);

    // A fresh engine over the same journal recovers it.
    let mut reopened = self::engine(&fake, Some(journal));
    assert!(reopened.state().recovered);
    assert_eq!(restore(&mut reopened, &mut fake).unwrap(), 0);
    assert!(reopened.journal.is_none());
    assert!(!reopened.state().quiet);
    let after = fake.snapshot(&vec!["SysMain".into()]).unwrap();
    assert!(after.processes.iter().any(|p| p.name == "Dropbox.exe"));
    assert_eq!(after.services[0].state, computequiet::snapshot::ServiceState::Running);
    assert_eq!(after.power_plan.unwrap().name, "Balanced");
    assert_eq!(fake.stats().unwrap().cpu_millionths, 23_000_000, "nothing is left suspended");
}

#[test]
fn a_second_run_while_quiet_is_refused_and_rows_fold_instances() {
    let mut fake = Fake::new();
    let mut engine = engine(&fake, None);
    go_quiet(&mut engine, &mut fake).unwrap();
    assert_eq!(go_quiet(&mut engine, &mut fake).unwrap_err().code, "already_quiet");
    let rows = fold_processes(fake.snapshot(&vec![]).unwrap().processes);
    assert!(rows.iter().any(|r| r.name == "game.exe" && r.instances == 1));
    assert!(rows[0].memory_bytes >= rows[rows.len() - 1].memory_bytes);
}

#[test]
fn a_run_in_progress_refuses_another_and_releases_on_abort() {
    let fake = Fake::new();
    let mut engine = engine(&fake, None);
    engine.start_quiet().unwrap();
    let busy = engine.start_quiet().unwrap_err();
    assert_eq!((busy.code.as_str(), busy.message.as_str()), ("busy", "CompuQuiet is already working"));
    assert_eq!(engine.start_restore().unwrap_err().code, "busy");
    engine.abort();
    assert_eq!(engine.start_restore().unwrap_err().code, "not_quiet");
    assert!(!engine.busy);
}

#[test]
fn a_failed_step_is_logged_and_not_journaled() {
    let mut fake = Fake::new();
    let mut engine = engine(&fake, None);
    let mut settings = engine.settings();
    settings.profile.processes = vec![ProcessTarget { name: "OneDrive".into(), action: ProcessAction::Suspend, enabled: true }];
    settings.profile.services.clear();
    settings.profile.power = PowerPolicy::Leave;
    settings.profile.purge_memory = false;
    engine.set_settings(settings);
    let names = engine.start_quiet().unwrap();
    let snapshot = fake.snapshot(&names).unwrap();
    let mut run = engine.plan_quiet(&snapshot, &vec![], SELF_PID, 9);
    fake.close(100, 1_700_000_100).unwrap();
    let line = run.record(Err(AppError::from_platform(PlatformError::NotRunning("PID 100".into()))));
    assert!(!line.ok);
    assert_eq!(line.label, "Suspend OneDrive.exe (PID 100)");
    assert_eq!(line.detail.as_deref(), Some("PID 100 is not running"));
    let summary = engine.finish_quiet(run);
    assert_eq!(summary.processes_suspended, 0);
    assert!(engine.journal.as_ref().unwrap().done.is_empty());
    assert_eq!(engine.state().log.len(), 1);
    assert_eq!(engine.state().started_at, Some(9));
}

#[test]
fn a_gone_process_counts_as_restored_and_other_failures_are_kept() {
    let mut journal = Journal::new(5);
    journal.record(DoneStep::ServiceStopped { name: "SysMain".into() });
    journal.record(DoneStep::ProcessSuspended { pid: 10, name: "OneDrive.exe".into(), start_time: 5 });
    journal.record(DoneStep::ProcessClosed { name: "Mystery".into(), exe: None, args: vec![], cwd: None });
    let fake = Fake::new();
    let mut engine = engine(&fake, Some(journal));
    let mut run = engine.start_restore().unwrap();
    let relaunch = run.record(Err(missing_path()));
    assert!(!relaunch.ok);
    assert_eq!(relaunch.detail.as_deref(), Some("the program's path was not recorded"));
    let resume = run.record(Err(AppError::new("not_running", "PID 10 is not running".into())));
    assert!(resume.ok);
    let start = run.record(Ok(()));
    assert_eq!(start.label, "Start service SysMain");
    let kept = run.kept().unwrap();
    assert_eq!(kept.done, vec![DoneStep::ProcessClosed { name: "Mystery".into(), exe: None, args: vec![], cwd: None }]);
    assert_eq!(kept.started_at, 5);
    assert_eq!(engine.finish_restore(run), 1);
    let left = engine.journal.as_ref().unwrap();
    assert_eq!(left.done, vec![DoneStep::ProcessClosed { name: "Mystery".into(), exe: None, args: vec![], cwd: None }]);
    assert!(engine.state().quiet);
    assert!(!engine.busy);
}

#[test]
fn every_step_is_journaled_so_that_its_undo_is_the_inverse() {
    let previous = PowerPlan { id: "balanced".into(), name: "Balanced".into() };
    let done = completed(&Step::SetPerformancePower, Some(previous.clone())).unwrap();
    assert_eq!(done.restore(), Some(RestoreStep::RestorePowerPlan { plan: previous }));
    assert_eq!(completed(&Step::SetPerformancePower, None), None);
    let stop = completed(&Step::StopService { name: "SysMain".into() }, None).unwrap();
    assert_eq!(stop.restore(), Some(RestoreStep::StartService { name: "SysMain".into() }));
    let suspend = completed(&Step::SuspendProcess { pid: 3, name: "x".into(), start_time: 9 }, None).unwrap();
    assert_eq!(suspend.restore(), Some(RestoreStep::ResumeProcess { pid: 3, name: "x".into(), start_time: 9 }));
    let close = Step::CloseProcess {
        pid: 4,
        name: "y".into(),
        exe: Some("/bin/y".into()),
        args: vec!["y".into(), "-q".into()],
        cwd: Some("/tmp".into()),
        start_time: 1,
    };
    assert_eq!(
        completed(&close, None).unwrap().restore(),
        Some(RestoreStep::Relaunch {
            name: "y".into(),
            exe: Some("/bin/y".into()),
            args: vec!["y".into(), "-q".into()],
            cwd: Some("/tmp".into())
        })
    );
    assert_eq!(completed(&Step::PurgeMemory, None).unwrap().restore(), None);
}

#[test]
fn unreadable_state_falls_back_and_says_why() {
    let engine = Engine::new(
        Os::Linux,
        Default::default(),
        "/state".into(),
        Err(CoreError::Invalid("settings are broken".into())),
        Err(CoreError::Invalid("journal is broken".into())),
    );
    assert_eq!(engine.settings, Settings::default_for(Os::Linux));
    assert!(engine.journal.is_none());
    assert!(!engine.recovered);
    assert_eq!(engine.state().startup_error.as_deref(), Some("journal is broken"));
    assert_eq!(engine.state().data_dir, "/state");
}

#[test]
fn auto_scan_parks_the_low_risk_finds_without_saving_them() {
    let mut fake = Fake::new();
    let mut engine = engine(&fake, None);
    let mut settings = engine.settings();
    settings.auto_scan = true;
    settings.profile.processes.clear();
    engine.set_settings(settings);
    go_quiet(&mut engine, &mut fake).unwrap();
    let state = engine.state();
    assert!(state.log[0].label.starts_with("Scan added "), "{:?}", state.log[0]);
    assert!(state.log[0].detail.as_deref().unwrap().contains("GoogleUpdate.exe"));
    assert!(engine.settings.profile.processes.is_empty(), "the saved targets are untouched");
    assert!(state.summary.processes_suspended >= 1);
}

fn process(pid: u32, name: &str, memory: u64) -> ProcessInfo {
    ProcessInfo {
        pid,
        name: name.into(),
        exe: None,
        args: vec![],
        cwd: None,
        memory_bytes: memory,
        cpu_millionths: 1_000_000,
        start_time: 0,
    }
}

#[test]
fn instances_fold_by_normalised_name_and_sort_heaviest_first() {
    let rows = fold_processes(vec![
        process(1, "chrome.exe", 100),
        process(2, "Chrome.exe", 300),
        process(3, "game.exe", 900),
        process(4, "", 5),
    ]);
    assert_eq!(rows.len(), 2);
    assert_eq!(rows[0].name, "game.exe");
    assert_eq!(rows[1].instances, 2);
    assert_eq!(rows[1].memory_bytes, 400);
    assert_eq!(rows[1].cpu_millionths, 2_000_000);
}

#[test]
fn equal_weights_are_listed_by_name_and_the_first_known_path_is_kept() {
    let mut b = process(1, "b.exe", 10);
    let mut a2 = process(3, "A.exe", 5);
    a2.exe = Some("/x/A.exe".into());
    b.exe = None;
    let rows = fold_processes(vec![b, process(2, "a.exe", 5), a2]);
    assert_eq!(rows.iter().map(|r| r.name.as_str()).collect::<Vec<_>>(), vec!["a.exe", "b.exe"]);
    assert_eq!(rows[0].exe.as_deref(), Some("/x/A.exe"));
    assert_eq!(rows[0].memory_bytes, 10);
}

#[test]
fn the_fake_machine_yields_known_hogs_a_heuristic_find_and_system_savings() {
    let fake = Fake::new();
    let mut engine = engine(&fake, None);
    let mut settings = engine.settings();
    settings.profile.processes.clear();
    settings.profile.services = vec![ServiceTarget { name: "SysMain".into(), enabled: true }];
    settings.profile.power = PowerPolicy::Leave;
    settings.profile.purge_memory = false;
    engine.set_settings(settings);

    let scan = |engine: &Engine| {
        let names = service_names_to_query(&engine.settings.profile, fake.os());
        let snapshot = fake.snapshot(&names).unwrap();
        scan_report(
            &engine.settings.profile,
            &snapshot,
            &fake.stats().unwrap(),
            &fake.activity(),
            SELF_PID,
            fake.os(),
            &fake.capabilities(),
            1,
        )
    };
    let report = scan(&engine);
    assert!(report.activity_known);
    let names: Vec<(&str, Risk, bool)> =
        report.recommendations.iter().map(|r| (r.name.as_str(), r.risk, r.already_targeted)).collect();
    assert!(names.contains(&("GoogleUpdate.exe", Risk::Low, false)), "{names:?}");
    assert!(names.contains(&("SysMain", Risk::Low, true)), "{names:?}");
    assert!(names.contains(&("WSearch", Risk::Low, false)), "{names:?}");
    assert!(names.contains(&("Power plan: Balanced", Risk::Low, false)), "{names:?}");
    assert!(names.contains(&("Cached memory", Risk::Low, false)), "{names:?}");
    assert!(names.contains(&("render-farm.exe", Risk::Medium, false)), "{names:?}");
    assert!(!names.iter().any(|(n, ..)| *n == "game.exe"), "the foreground game is never suggested");
    assert!(!names.iter().any(|(n, ..)| *n == "explorer.exe"));

    let low = low_risk_additions(&report.recommendations);
    assert!(low.iter().all(|r| r.risk == Risk::Low && !r.already_targeted));
    let applied = engine.applied_settings(&low);
    assert!(applied.validate().is_ok());
    engine.set_settings(applied.clone());
    assert_eq!(applied.profile.power, PowerPolicy::Performance);
    assert!(applied.profile.purge_memory);
    assert!(applied.profile.processes.iter().any(|t| t.name == "GoogleUpdate.exe"));
    assert!(applied.profile.services.iter().any(|t| t.name == "WSearch"));
    assert!(!applied.profile.processes.iter().any(|t| t.name == "render-farm.exe"));

    // Applied once, the same finds are now "already targeted".
    let again = scan(&engine);
    for item in again.recommendations {
        if matches!(item.kind, RecommendationKind::Process { .. }) && item.risk == Risk::Low {
            assert!(item.already_targeted, "{}", item.name);
        }
    }
    assert_eq!(report.cached_bytes, 2 * 1024 * 1024 * 1024);
}

#[test]
fn the_tray_names_the_current_state_and_the_action_separately() {
    for active in [true, false] {
        assert_ne!(status_label(active), toggle_label(active));
    }
    assert!(status_label(true).contains("ON") && status_label(false).contains("OFF"));
    // The action item must describe what pressing it does, not the state it is in.
    assert!(toggle_label(true).contains("off"), "{}", toggle_label(true));
    assert!(toggle_label(false).contains("on"), "{}", toggle_label(false));
}

#[test]
fn known_tray_menu_ids_are_stable() {
    assert_eq!(ID_TOGGLE, "tray-toggle");
    assert_eq!(ID_SHOW, "tray-show");
    assert_eq!(ID_QUIT, "tray-quit");
}

#[test]
fn tray_menu_ids_route_to_their_actions_and_the_look_follows_the_state() {
    assert_eq!(menu_action("tray-toggle"), Some(MenuAction::Toggle));
    assert_eq!(menu_action("tray-show"), Some(MenuAction::Show));
    assert_eq!(menu_action("tray-quit"), Some(MenuAction::Quit));
    assert_eq!(menu_action("tray-other"), None);
    let quiet = tray_look(true);
    assert!(quiet.quiet_icon);
    assert_eq!(quiet.tooltip, "CompuQuiet — Quiet Mode on");
    assert_eq!(quiet.toggle_label, "Put everything back");
    assert_eq!(tray_look(false).toggle_label, "Free up this PC");
    assert!(click_hides_window(true, true));
    assert!(!click_hides_window(true, false));
    assert_eq!(tray_quit(true, true, true), TrayQuit::Ignore);
    assert_eq!(tray_quit(false, true, true), TrayQuit::RestoreFirst);
    assert_eq!(tray_quit(false, true, false), TrayQuit::Exit);
}

#[test]
fn the_notification_says_what_the_toggle_did() {
    let fake = Fake::new();
    let mut state = engine(&fake, None).state();
    state.summary.services_stopped = 2;
    state.summary.processes_suspended = 3;
    state.summary.processes_closed = 1;
    state.quiet = true;
    let ok: Result<_, AppError> = Ok(state);
    assert_eq!(notification_body(&ok, true), "Quiet Mode on: 2 services stopped, 4 processes parked.");
    assert_eq!(notification_body(&ok, false), "Some changes could not be restored. Open the window.");
    let mut calm = engine(&fake, None).state();
    calm.quiet = false;
    assert_eq!(notification_body(&Ok(calm), false), "Everything is back.");
    let failed: Result<_, AppError> = Err(AppError::new("busy", "CompuQuiet is already working".into()));
    assert_eq!(notification_body(&failed, true), "CompuQuiet is already working");
}

#[test]
fn temporary_and_development_locations_are_refused() {
    assert!(refusal("C:/repo/target/debug/computequiet.exe", "/tmp", None, false).is_some());
    assert!(refusal("/home/me/proj/target/release/computequiet", "/tmp", None, false).is_some());
    assert_eq!(
        refusal("/tmp/computequiet.exe", "/tmp/", None, false).as_deref(),
        Some("the app is running from a temporary folder")
    );
    assert_eq!(
        refusal("C:\\Users\\Me\\Downloads\\ComputeQuiet.exe", "C:/Temp", Some("C:\\Users\\me\\Downloads"), false)
            .as_deref(),
        Some("move the app out of Downloads first")
    );
}

#[test]
fn an_installed_location_is_allowed() {
    assert_eq!(
        refusal(
            "C:/Users/me/AppData/Local/ComputeQuiet/ComputeQuiet.exe",
            "C:/Users/me/AppData/Local/Temp",
            Some("C:/Users/me/Downloads"),
            false
        ),
        None
    );
    assert_eq!(
        refusal("/home/me/bin/computequiet", "/tmp", None, true).as_deref(),
        Some("only the AppImage can register itself to start at login")
    );
}

#[test]
fn enabling_a_refused_copy_is_an_error_and_disabling_never_is() {
    let reason = Some("move the app out of Downloads first".to_string());
    let refused = check_change(true, reason.clone()).unwrap_err();
    assert_eq!(refused.code, "autostart_refused");
    assert!(check_change(false, reason.clone()).is_ok());
    let s = status(true, false, reason);
    assert!(s.enabled && !s.allowed);
    assert!(status(false, false, None).allowed);
}

#[test]
fn the_logon_task_runs_this_copy_hidden_and_elevated_only_when_we_are() {
    let args = create_task_args("C:/Program Files/ComputeQuiet/ComputeQuiet.exe", true);
    assert_eq!(args[7], "HIGHEST");
    assert_eq!(args[9], "\"C:/Program Files/ComputeQuiet/ComputeQuiet.exe\" --hidden");
    assert_eq!(create_task_args("x", false)[7], "LIMITED");
    assert!(task_is_elevated("<Principal><RunLevel>HighestAvailable</RunLevel></Principal>"));
    assert!(!task_is_elevated("<RunLevel>LeastPrivilege</RunLevel>"));
}

#[test]
fn relaunching_while_quiet_and_quitting_half_restored_are_refused() {
    assert_eq!(relaunch_refusal(true).unwrap().code, "quiet");
    assert!(relaunch_refusal(false).is_none());
    assert_eq!(quit_after_restore(true).unwrap_err().code, "restore_incomplete");
    assert!(quit_after_restore(false).is_ok());
}

#[test]
fn failures_reach_the_window_with_a_code_it_can_act_on() {
    let e = AppError::from_platform(PlatformError::NeedsElevation);
    assert_eq!((e.code.as_str(), e.message.as_str()), ("needs_elevation", "administrator rights are required"));
    assert_eq!(AppError::from_platform(PlatformError::NotInstalled("x".into())).code, "not_installed");
    assert_eq!(AppError::from_platform(PlatformError::Other("x".into())).code, "platform");
    let state = AppError::from_core(CoreError::NoDataDir);
    assert_eq!(state.code, "state");
    assert_eq!(state.text(), "no configuration directory is available on this system");
}

fn advice(id: &str, recommendation: Recommendation) -> Advice {
    Advice { id: id.into(), recommendation, confidence: 99, reason: "test".into() }
}

#[test]
fn rejects_invented_ids_and_protected_targets_and_redacts_metadata() {
    let w = Workload { id: "1".into(), blocked: "security".into(), exe: "C:/private/name.exe".into(), ..Default::default() };
    let snapshot = Snapshot { workloads: vec![w], ..Default::default() };
    let mut a = Assessment { summary: "test".into(), workloads: vec![advice("1", Recommendation::Close)] };
    assert!(validate(&a, &snapshot).is_err());
    a.workloads[0].recommendation = Recommendation::Keep;
    assert!(validate(&a, &snapshot).is_ok());
    a.workloads[0].id = "invented".into();
    assert!(validate(&a, &snapshot).is_err());
}

#[test]
fn oversized_duplicate_and_overconfident_assessments_are_refused() {
    let snapshot = Snapshot {
        workloads: vec![
            Workload { id: "1".into(), ..Default::default() },
            Workload { id: "2".into(), ..Default::default() },
        ],
        ..Default::default()
    };
    let long = Assessment { summary: "x".repeat(2001), workloads: vec![] };
    assert_eq!(validate(&long, &snapshot).unwrap_err(), "Assessment exceeds the expected size");
    let twice = Assessment {
        summary: String::new(),
        workloads: vec![advice("1", Recommendation::Ask), advice("1", Recommendation::Ask)],
    };
    assert_eq!(validate(&twice, &snapshot).unwrap_err(), "Assessment contains invalid or duplicate recommendations");
    let mut sure = Assessment { summary: String::new(), workloads: vec![advice("2", Recommendation::Close)] };
    sure.workloads[0].confidence = 101;
    assert!(validate(&sure, &snapshot).is_err());
    let unknown = Assessment { summary: String::new(), workloads: vec![advice("3", Recommendation::Keep)] };
    assert_eq!(validate(&unknown, &snapshot).unwrap_err(), "Assessment referred to an unknown workload");
}

#[test]
fn model_names_are_checked_before_they_reach_a_command_line() {
    assert!(check_model("").is_ok());
    assert!(check_model("gpt-5.1-codex:latest/x_y").is_ok());
    assert_eq!(check_model("a b").unwrap_err(), "Invalid model name");
    assert!(check_model("--model=evil;rm").is_err());
    assert!(check_model(&"m".repeat(129)).is_err());
    assert!(check_model(&"m".repeat(128)).is_ok());
}

#[test]
fn the_codex_stream_yields_the_last_agent_message_and_rejects_tool_use() {
    let raw = "{\"type\":\"thread.started\"}\n\n{\"type\":\"item.completed\",\"item\":{\"type\":\"agent_message\",\"text\":\"{}\"}}\n";
    assert_eq!(codex_final_text(raw).unwrap(), "{}");
    let tool = "{\"type\":\"item.completed\",\"item\":{\"type\":\"command_execution\"}}";
    assert_eq!(
        codex_final_text(tool).unwrap_err(),
        "Assessment attempted a tool action; its recommendations were rejected."
    );
    assert_eq!(codex_final_text("not json").unwrap_err(), "Invalid Codex event");
    assert_eq!(codex_final_text("{\"type\":\"turn.completed\"}").unwrap_err(), "Codex returned no assessment");
}

#[test]
fn the_claude_reply_points_at_the_assessment_or_says_why_not() {
    assert_eq!(claude_answer("{\"structured_output\":{}}").unwrap(), ClaudeAnswer::Structured);
    assert_eq!(claude_answer("{\"result\":\"{}\"}").unwrap(), ClaudeAnswer::Text("{}".into()));
    assert_eq!(
        claude_answer("{\"is_error\":true,\"result\":\"x\"}").unwrap_err(),
        "The assistant could not complete the assessment. Check the CLI login and limits."
    );
    assert_eq!(claude_answer("[").unwrap_err(), "The assistant returned invalid JSON");
    assert_eq!(claude_answer("{}").unwrap_err(), "The assistant returned no assessment");
}

#[test]
fn the_clients_run_without_tools_and_with_the_instructions() {
    let codex = codex_args("C:\\tmp\\instructions.txt", "C:/tmp/schema.json", "");
    assert_eq!(codex[19], "model_instructions_file=\"C:\\\\tmp\\\\instructions.txt\"");
    assert_eq!(codex.last().unwrap(), "-");
    assert!(!codex.contains(&"-m".to_string()));
    let with_model = codex_args("i", "s", "o3");
    assert_eq!(&with_model[with_model.len() - 3..], &["-m".to_string(), "o3".to_string(), "-".to_string()]);
    let claude = claude_args("{}", "sonnet");
    assert_eq!(claude[12], INSTRUCTIONS);
    assert_eq!(&claude[claude.len() - 2..], &["--model".to_string(), "sonnet".to_string()]);
    assert!(prompt("[]").ends_with("\nSnapshot:\n[]"));
}

#[test]
fn workload_keys_fold_the_path_and_only_hashed_close_or_ollama_work_is_actionable() {
    let w = Workload { kind: "close".into(), exe: "C:/Ä/App.EXE".into(), hash: "ab".into(), ..Default::default() };
    assert_eq!(w.key(), "close|c:/ä/app.exe|ab");
    assert!(w.actionable());
    let unhashed = Workload { kind: "ollama".into(), ..Default::default() };
    assert!(!unhashed.actionable());
    let blocked = Workload { kind: "close".into(), hash: "ab".into(), blocked: "audio".into(), ..Default::default() };
    assert!(!blocked.actionable());
    assert_eq!(Preference::default(), Preference::Ask);
    assert_eq!(Provider::default(), Provider::Codex);
}

#[test]
fn a_counter_is_unavailable_only_when_a_warning_names_it_so() {
    let mut snapshot = Snapshot::default();
    assert!(counter_available(&snapshot, "GPU"));
    snapshot.warnings.push("GPU counters unavailable: no driver".to_string());
    snapshot.warnings.push("I/O counters were slow".to_string());
    assert!(!counter_available(&snapshot, "GPU"));
    assert!(counter_available(&snapshot, "I/O"));
}

#[test]
fn the_instructions_path_is_written_as_a_json_string() {
    let codex = codex_args("a\"b\tc\u{1}d\u{1f}é", "s", "");
    assert_eq!(codex[19], "model_instructions_file=\"a\\\"b\\tc\\u0001d\\u001fé\"");
}

#[test]
fn a_fully_restored_journal_is_deleted() {
    let mut journal = Journal::new(5);
    journal.record(DoneStep::ServiceStopped { name: "SysMain".into() });
    let fake = Fake::new();
    let mut engine = engine(&fake, Some(journal));
    let mut run = engine.start_restore().unwrap();
    assert!(run.record(Ok(())).ok);
    assert!(run.kept().is_none());
    assert_eq!(engine.finish_restore(run), 0);
    assert!(engine.journal.is_none());
}

#[test]
fn the_windows_helper_answer_is_json_or_its_error() {
    assert_eq!(helper_result("\u{feff}\u{feff}  {\"plans\": [1, 2]}\r\n"), Ok("{\"plans\":[1,2]}".to_string()));
    assert_eq!(helper_result("{\"error\": \"access denied\"}"), Err("access denied".to_string()));
    assert_eq!(helper_result("{\"error\": 5}"), Ok("{\"error\":5}".to_string()));
    assert_eq!(helper_result("not json"), Err("Windows helper returned invalid data".to_string()));
    assert_eq!(helper_result(""), Err("Windows helper returned invalid data".to_string()));
}
