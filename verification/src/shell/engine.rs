//! The orchestrator's decisions: snapshot, plan, execute, journal; then undo
//! in reverse.
//!
//! The engine holds what the app knows between commands. A run is a small
//! state machine: the caller performs the step it names on the machine and
//! hands back what happened. Every step that succeeded is journaled before
//! the next one starts. Failures are logged and skipped rather than aborting
//! the run (a service that refuses to stop is no reason to leave the others
//! running), and a restore that only half succeeds keeps the failed entries
//! so it can be retried.

use vstd::prelude::*;
use std::collections::HashSet;
use crate::error::{core_message, CoreError};
use crate::journal::{done_views, restore_label, summarizes, undo_of, DoneStep, DoneView, Journal, RestoreStep, RestoreView, Summary, indexed_views, undo_plan, retained, CURRENT_VERSION};
use crate::plan::{build_plan, copy_opt, copy_string, planned, skipped_view, step_label, steps_view, strings_view, Capabilities, Skipped, Step, StepView};
use crate::profile::{Os, Profile, ProfileView, ServiceTarget};
use crate::catalogue::known_services;
use crate::recommend::{apply, applied, query_names, recs_view, service_names_to_query, Recommendation};
use crate::settings::{is_default_settings, same_settings, Settings};
use crate::shell::error::AppError;
use crate::shell::scan::{low_risk, low_risk_additions};
use crate::snapshot::{opt_view, power_view, PowerPlan, Snapshot};
use crate::text::{decimal, push_decimal};

verus! {

#[derive(Debug, Clone)]
pub struct LogLine {
    pub label: String,
    pub ok: bool,
    pub detail: Option<String>,
}

impl View for LogLine {
    type V = (Seq<char>, bool, Option<Seq<char>>);

    open spec fn view(&self) -> (Seq<char>, bool, Option<Seq<char>>) {
        (self.label@, self.ok, opt_view(self.detail))
    }
}

pub open spec fn lines_view(v: Seq<LogLine>) -> Seq<(Seq<char>, bool, Option<Seq<char>>)> {
    v.map_values(|l: LogLine| l@)
}

impl LogLine {
    /// A line with the same contents.
    pub fn copy(&self) -> (r: LogLine)
        ensures
            r@ == self@,
    {
        LogLine { label: copy_string(&self.label), ok: self.ok, detail: copy_opt(&self.detail) }
    }
}

/// A list of lines with the same contents.
fn copy_lines(v: &Vec<LogLine>) -> (r: Vec<LogLine>)
    ensures
        lines_view(r@) == lines_view(v@),
{
    let mut r: Vec<LogLine> = Vec::new();
    let mut i: usize = 0;
    while i < v.len()
        invariant
            i <= v@.len(),
            lines_view(r@) == lines_view(v@.take(i as int)),
        decreases v.len() - i,
    {
        let ghost before = r@;
        r.push(v[i].copy());
        assert(lines_view(r@) =~= lines_view(before).push(v@[i as int]@));
        assert(v@.take(i + 1) =~= v@.take(i as int).push(v@[i as int]));
        assert(lines_view(v@.take(i + 1)) =~= lines_view(v@.take(i as int)).push(v@[i as int]@));
        i = i + 1;
    }
    assert(v@.take(v@.len() as int) =~= v@);
    r
}

/// A list of skipped targets with the same contents.
fn copy_skipped(v: &Vec<Skipped>) -> (r: Vec<Skipped>)
    ensures
        skipped_view(r@) == skipped_view(v@),
{
    let mut r: Vec<Skipped> = Vec::new();
    let mut i: usize = 0;
    while i < v.len()
        invariant
            i <= v@.len(),
            skipped_view(r@) == skipped_view(v@.take(i as int)),
        decreases v.len() - i,
    {
        let ghost before = r@;
        r.push(Skipped { name: copy_string(&v[i].name), reason: copy_string(&v[i].reason) });
        assert(skipped_view(r@) =~= skipped_view(before).push(v@[i as int]@));
        assert(v@.take(i + 1) =~= v@.take(i as int).push(v@[i as int]));
        assert(skipped_view(v@.take(i + 1)) =~= skipped_view(v@.take(i as int)).push(v@[i as int]@));
        i = i + 1;
    }
    assert(v@.take(v@.len() as int) =~= v@);
    r
}

/// What the window shows of the engine.
#[derive(Debug)]
pub struct EngineState {
    pub quiet: bool,
    pub busy: bool,
    pub started_at: Option<u64>,
    pub summary: Summary,
    pub skipped: Vec<Skipped>,
    pub log: Vec<LogLine>,
    pub capabilities: Capabilities,
    pub data_dir: String,
    pub os: Os,
    /// A journal from an earlier run was found at start-up.
    pub recovered: bool,
    pub startup_error: Option<String>,
}

/// The entry that records a step that succeeded; a switch of power plan
/// records the plan it replaced.
pub open spec fn completed_view(s: StepView, previous: Option<(Seq<char>, Seq<char>)>) -> Option<DoneView> {
    match s {
        StepView::SetPerformancePower => match previous {
            Some(p) => Some(DoneView::PowerPlanChanged { previous: p }),
            None => None,
        },
        StepView::StopService { name } => Some(DoneView::ServiceStopped { name }),
        StepView::SuspendProcess { pid, name, start_time } => Some(DoneView::ProcessSuspended { pid, name, start_time }),
        StepView::CloseProcess { name, exe, args, cwd, .. } => Some(DoneView::ProcessClosed { name, exe, args, cwd }),
        StepView::PurgeMemory => Some(DoneView::MemoryPurged),
    }
}

/// The action that puts back what a step changed.
pub open spec fn inverse_of(s: StepView, previous: Option<(Seq<char>, Seq<char>)>) -> Option<RestoreView> {
    match s {
        StepView::SetPerformancePower => match previous {
            Some(p) => Some(RestoreView::RestorePowerPlan { plan: p }),
            None => None,
        },
        StepView::StopService { name } => Some(RestoreView::StartService { name }),
        StepView::SuspendProcess { pid, name, start_time } => Some(RestoreView::ResumeProcess { pid, name, start_time }),
        StepView::CloseProcess { name, exe, args, cwd, .. } => Some(RestoreView::Relaunch { name, exe, args, cwd }),
        StepView::PurgeMemory => None,
    }
}

/// Every step that succeeded is journaled, and the journal entry is undone
/// by the inverse action on the same target: a stopped service is started,
/// a suspended process (same PID, same start time) is resumed, a closed
/// program is relaunched with its recorded command line, and the power plan
/// that was active is restored. A purge has nothing to undo.
pub proof fn lemma_journal_undoes_steps(s: StepView, previous: Option<(Seq<char>, Seq<char>)>)
    ensures
        (s !is SetPerformancePower || previous is Some) ==> completed_view(s, previous) is Some,
        completed_view(s, previous) matches Some(d) ==> undo_of(d) == inverse_of(s, previous),
{
}

/// The journal entry for a step that succeeded.
pub fn completed(step: &Step, previous: Option<PowerPlan>) -> (r: Option<DoneStep>)
    ensures
        match r {
            Some(d) => completed_view(step@, power_view(previous)) == Some(d@),
            None => completed_view(step@, power_view(previous)) is None,
        },
{
    match step {
        Step::SetPerformancePower => match previous {
            Some(p) => Some(DoneStep::PowerPlanChanged { previous: p }),
            None => None,
        },
        Step::StopService { name } => Some(DoneStep::ServiceStopped { name: copy_string(name) }),
        Step::SuspendProcess { pid, name, start_time } => Some(
            DoneStep::ProcessSuspended { pid: *pid, name: copy_string(name), start_time: *start_time },
        ),
        Step::CloseProcess { name, exe, args, cwd, .. } => Some(
            DoneStep::ProcessClosed {
                name: copy_string(name),
                exe: copy_opt(exe),
                args: crate::plan::copy_strings(args),
                cwd: copy_opt(cwd),
            },
        ),
        Step::PurgeMemory => Some(DoneStep::MemoryPurged),
    }
}

/// The names joined with `sep` between them.
pub open spec fn joined(names: Seq<Seq<char>>, sep: Seq<char>) -> Seq<char>
    decreases names.len(),
{
    if names.len() == 0 {
        Seq::empty()
    } else if names.len() == 1 {
        names[0]
    } else {
        joined(names.drop_last(), sep) + sep + names.last()
    }
}

/// The names of the enabled service targets, in order.
pub open spec fn enabled_names(ts: Seq<ServiceTarget>) -> Seq<Seq<char>>
    decreases ts.len(),
{
    if ts.len() == 0 {
        Seq::empty()
    } else if ts.last().enabled {
        enabled_names(ts.drop_last()).push(ts.last().name@)
    } else {
        enabled_names(ts.drop_last())
    }
}

/// The services a quiet run asks the platform about: with auto-scan on,
/// every service the scan knows for `os` as well as the profile's; otherwise
/// the profile's enabled ones.
pub open spec fn quiet_names(settings: Settings, os: Os) -> Seq<Seq<char>> {
    if settings.auto_scan {
        query_names(
            settings.profile.services@.map_values(|t: ServiceTarget| t.name@),
            known_services(os),
            known_services(os).len() as int,
        )
    } else {
        enabled_names(settings.profile.services@)
    }
}

/// The label of the progress line for the scan's additions.
pub open spec fn scan_label(n: nat) -> Seq<char> {
    "Scan added "@ + decimal(n) + " low-risk target(s)"@
}

/// The names of the enabled service targets.
fn enabled_service_names(targets: &Vec<ServiceTarget>) -> (r: Vec<String>)
    ensures
        strings_view(r@) == enabled_names(targets@),
{
    let mut r: Vec<String> = Vec::new();
    let mut i: usize = 0;
    assert(targets@.take(0) =~= Seq::<ServiceTarget>::empty());
    while i < targets.len()
        invariant
            i <= targets@.len(),
            strings_view(r@) == enabled_names(targets@.take(i as int)),
        decreases targets.len() - i,
    {
        assert(targets@.take(i + 1).drop_last() =~= targets@.take(i as int));
        if targets[i].enabled {
            let ghost before = r@;
            r.push(copy_string(&targets[i].name));
            assert(strings_view(r@) =~= strings_view(before).push(targets@[i as int].name@));
        }
        i = i + 1;
    }
    assert(targets@.take(targets@.len() as int) =~= targets@);
    r
}

/// The names of the recommendations, joined with `, `.
fn join_names(recs: &Vec<Recommendation>) -> (r: String)
    ensures
        r@ == joined(recs_view(recs@).map_values(|x: crate::recommend::RecView| x.name), ", "@),
{
    let ghost names = recs_view(recs@).map_values(|x: crate::recommend::RecView| x.name);
    let mut r = String::new();
    let mut i: usize = 0;
    proof {
        reveal_strlit(", ");
    }
    assert(names.take(0) =~= Seq::<Seq<char>>::empty());
    while i < recs.len()
        invariant
            i <= recs@.len(),
            names == recs_view(recs@).map_values(|x: crate::recommend::RecView| x.name),
            names.len() == recs@.len(),
            r@ == joined(names.take(i as int), ", "@),
            ", "@ == seq![',', ' '],
        decreases recs.len() - i,
    {
        assert(names.take(i + 1).drop_last() =~= names.take(i as int));
        assert(names[i as int] == recs@[i as int].name@);
        if i > 0 {
            r.append(", ");
        }
        r.append(recs[i].name.as_str());
        proof {
            if i == 0 {
                assert(r@ =~= names.take(1)[0]);
            } else {
                assert(r@ =~= joined(names.take(i as int), ", "@) + ", "@ + names[i as int]);
            }
        }
        i = i + 1;
    }
    assert(names.take(names.len() as int) =~= names);
    r
}

/// One quiet run in progress: the plan, and the journal of what has been
/// done so far.
#[derive(Debug)]
pub struct QuietRun {
    /// The profile the plan was built from: the saved one, plus the scan's
    /// low-risk finds when auto-scan is on.
    pub profile: Profile,
    pub steps: Vec<Step>,
    pub skipped: Vec<Skipped>,
    pub journal: Journal,
    pub log: Vec<LogLine>,
    /// The step to perform next.
    pub next: usize,
}

impl QuietRun {
    /// The step to perform next, if any remain.
    pub fn current(&self) -> (r: Option<&Step>)
        ensures
            match r {
                Some(s) => self.next < self.steps@.len() && *s == self.steps@[self.next as int],
                None => self.next >= self.steps@.len(),
            },
    {
        if self.next < self.steps.len() {
            Some(&self.steps[self.next])
        } else {
            None
        }
    }

    /// What happened when the current step was performed: `Ok` with the plan
    /// it replaced for a power switch and `None` for the others, or the
    /// failure. A success is journaled; either way the progress line is
    /// logged and handed back.
    pub fn record(&mut self, outcome: Result<Option<PowerPlan>, AppError>) -> (line: LogLine)
        requires
            old(self).next < old(self).steps@.len(),
            old(self).steps@[old(self).next as int] is SetPerformancePower ==> (outcome matches Ok(p) ==> p is Some),
        ensures
            final(self).next == old(self).next + 1,
            final(self).steps == old(self).steps,
            final(self).skipped == old(self).skipped,
            final(self).profile == old(self).profile,
            final(self).journal.version == old(self).journal.version,
            final(self).journal.started_at == old(self).journal.started_at,
            line.label@ == step_label(old(self).steps@[old(self).next as int]@),
            line.ok == outcome is Ok,
            match outcome {
                Ok(p) => line.detail is None && done_views(final(self).journal.done@) == done_views(old(self).journal.done@).push(
                    completed_view(old(self).steps@[old(self).next as int]@, power_view(p))->0,
                ),
                Err(e) => opt_view(line.detail) == Some(e.message@) && done_views(final(self).journal.done@) == done_views(
                    old(self).journal.done@,
                ),
            },
            lines_view(final(self).log@) == lines_view(old(self).log@).push(line@),
    {
        let count = self.steps.len();
        let step = &self.steps[self.next];
        let label = step.label();
        let line = match outcome {
            Ok(previous) => {
                let done = completed(step, previous);
                match done {
                    Some(d) => {
                        let ghost before = self.journal.done@;
                        self.journal.record(d);
                        assert(done_views(self.journal.done@) =~= done_views(before).push(d@));
                    },
                    None => {},
                }
                LogLine { label, ok: true, detail: None }
            },
            Err(error) => LogLine { label, ok: false, detail: Some(error.message) },
        };
        let ghost before = self.log@;
        self.log.push(line.copy());
        assert(lines_view(self.log@) =~= lines_view(before).push(line@));
        assert(self.next < count);
        self.next = self.next + 1;
        line
    }
}

/// One restore in progress: the undo steps, newest first, and which of them
/// failed.
#[derive(Debug)]
pub struct RestoreRun {
    pub journal: Journal,
    pub steps: Vec<(usize, RestoreStep)>,
    /// Journal entries whose undo failed.
    pub failed: HashSet<usize>,
    pub log: Vec<LogLine>,
    /// The step to perform next.
    pub next: usize,
}

/// The failure reported for a relaunch whose program path was never
/// recorded.
pub fn missing_path() -> (e: AppError)
    ensures
        e.code@ == "not_installed"@,
        e.message@ == "the program's path was not recorded"@,
{
    AppError::new("not_installed", String::from_str("the program's path was not recorded"))
}

impl RestoreRun {
    /// What the journal on disk becomes when this restore ends: the entries
    /// whose undo failed, or nothing (the file is deleted) when none did.
    pub fn kept(&self) -> (r: Option<Journal>)
        ensures
            match r {
                None => retained(done_views(self.journal.done@), self.failed@, self.journal.done@.len() as int).len() == 0,
                Some(j) => {
                    &&& retained(done_views(self.journal.done@), self.failed@, self.journal.done@.len() as int).len() > 0
                    &&& done_views(j.done@) == retained(done_views(self.journal.done@), self.failed@, self.journal.done@.len() as int)
                    &&& j.version == self.journal.version
                    &&& j.started_at == self.journal.started_at
                },
            },
    {
        let mut journal = self.journal.copy();
        proof {
            assert(done_views(journal.done@).len() == journal.done@.len());
        }
        journal.retain(&self.failed);
        if journal.done.len() == 0 {
            None
        } else {
            Some(journal)
        }
    }

    /// The undo step to perform next, if any remain.
    pub fn current(&self) -> (r: Option<&RestoreStep>)
        ensures
            match r {
                Some(s) => self.next < self.steps@.len() && *s == self.steps@[self.next as int].1,
                None => self.next >= self.steps@.len(),
            },
    {
        if self.next < self.steps.len() {
            Some(&self.steps[self.next].1)
        } else {
            None
        }
    }

    /// What happened when the current undo step was performed. A process
    /// that is already gone needs no resuming: its entry is done with, not
    /// failed.
    pub fn record(&mut self, outcome: Result<(), AppError>) -> (line: LogLine)
        requires
            old(self).next < old(self).steps@.len(),
        ensures
            final(self).next == old(self).next + 1,
            final(self).steps == old(self).steps,
            final(self).journal == old(self).journal,
            line.label@ == restore_label(old(self).steps@[old(self).next as int].1@),
            match outcome {
                Ok(()) => line.ok && line.detail is None && final(self).failed@ == old(self).failed@,
                Err(e) => {
                    &&& line.ok == (e.code@ == "not_running"@)
                    &&& opt_view(line.detail) == Some(e.message@)
                    &&& final(self).failed@ == if e.code@ == "not_running"@ {
                        old(self).failed@
                    } else {
                        old(self).failed@.insert(old(self).steps@[old(self).next as int].0)
                    }
                },
            },
            lines_view(final(self).log@) == lines_view(old(self).log@).push(line@),
    {
        let count = self.steps.len();
        let index = self.steps[self.next].0;
        let label = self.steps[self.next].1.label();
        let line = match outcome {
            Ok(()) => LogLine { label, ok: true, detail: None },
            Err(error) => {
                let not_running = String::from_str("not_running");
                let gone = error.code == not_running;
                if !gone {
                    self.failed.insert(index);
                }
                LogLine { label, ok: gone, detail: Some(error.message) }
            },
        };
        let ghost before = self.log@;
        self.log.push(line.copy());
        assert(lines_view(self.log@) =~= lines_view(before).push(line@));
        assert(self.next < count);
        self.next = self.next + 1;
        line
    }
}

/// What the app knows between commands.
#[derive(Debug)]
pub struct Engine {
    pub settings: Settings,
    /// Present while Quiet Mode is on.
    pub journal: Option<Journal>,
    pub log: Vec<LogLine>,
    pub skipped: Vec<Skipped>,
    pub recovered: bool,
    pub startup_error: Option<String>,
    /// A run is in progress; a second one would race on the journal.
    pub busy: bool,
    pub data_dir: String,
    pub os: Os,
    pub capabilities: Capabilities,
}

/// Whether `e` is the error of a refused run with this code and message.
pub open spec fn refused(r: Result<Vec<String>, AppError>, code: Seq<char>, message: Seq<char>) -> bool {
    r matches Err(e) && e.code@ == code && e.message@ == message
}

impl Engine {
    /// Starts from what was read at start-up. Unreadable settings fall back
    /// to the defaults and an unreadable journal to none, each leaving its
    /// message for the window (the journal's wins when both fail).
    pub fn new(
        os: Os,
        capabilities: Capabilities,
        data_dir: String,
        settings: Result<Settings, CoreError>,
        journal: Result<Option<Journal>, CoreError>,
    ) -> (e: Engine)
        ensures
            match settings {
                Ok(s) => e.settings == s,
                Err(_) => is_default_settings(e.settings, os),
            },
            match journal {
                Ok(j) => e.journal == j,
                Err(_) => e.journal is None,
            },
            e.recovered == e.journal is Some,
            match (journal, settings) {
                (Err(x), _) => e.startup_error matches Some(m) && core_message(x, m@),
                (Ok(_), Err(x)) => e.startup_error matches Some(m) && core_message(x, m@),
                (Ok(_), Ok(_)) => e.startup_error is None,
            },
            e.log@.len() == 0,
            e.skipped@.len() == 0,
            !e.busy,
            e.data_dir == data_dir,
            e.os == os,
            e.capabilities == capabilities,
    {
        let mut startup_error: Option<String> = None;
        let settings = match settings {
            Ok(s) => s,
            Err(error) => {
                startup_error = Some(error.message());
                Settings::default_for(os)
            },
        };
        let journal = match journal {
            Ok(j) => j,
            Err(error) => {
                startup_error = Some(error.message());
                None
            },
        };
        let recovered = journal.is_some();
        Engine {
            settings,
            journal,
            log: Vec::new(),
            skipped: Vec::new(),
            recovered,
            startup_error,
            busy: false,
            data_dir,
            os,
            capabilities,
        }
    }

    /// What the window shows.
    pub fn state(&self) -> (s: EngineState)
        ensures
            s.quiet == self.journal is Some,
            s.busy == self.busy,
            match self.journal {
                Some(j) => s.started_at == Some(j.started_at) && summarizes(s.summary, done_views(j.done@)),
                None => {
                    &&& s.started_at is None
                    &&& s.summary == (Summary {
                        services_stopped: 0,
                        processes_suspended: 0,
                        processes_closed: 0,
                        power_changed: false,
                        memory_purged: false,
                    })
                },
            },
            skipped_view(s.skipped@) == skipped_view(self.skipped@),
            lines_view(s.log@) == lines_view(self.log@),
            s.capabilities == self.capabilities,
            s.data_dir@ == self.data_dir@,
            s.os == self.os,
            s.recovered == self.recovered,
            opt_view(s.startup_error) == opt_view(self.startup_error),
    {
        let (started_at, summary) = match &self.journal {
            Some(j) => (Some(j.started_at), j.summary()),
            None => (
                None,
                Summary {
                    services_stopped: 0,
                    processes_suspended: 0,
                    processes_closed: 0,
                    power_changed: false,
                    memory_purged: false,
                },
            ),
        };
        EngineState {
            quiet: self.journal.is_some(),
            busy: self.busy,
            started_at,
            summary,
            skipped: copy_skipped(&self.skipped),
            log: copy_lines(&self.log),
            capabilities: self.capabilities,
            data_dir: copy_string(&self.data_dir),
            os: self.os,
            recovered: self.recovered,
            startup_error: copy_opt(&self.startup_error),
        }
    }

    pub fn is_quiet(&self) -> (r: bool)
        ensures
            r == self.journal is Some,
    {
        self.journal.is_some()
    }

    /// The saved settings.
    pub fn settings(&self) -> (s: Settings)
        ensures
            same_settings(s, self.settings),
    {
        self.settings.copy()
    }

    /// Takes settings that were validated and written to disk.
    pub fn set_settings(&mut self, settings: Settings)
        ensures
            final(self).settings == settings,
            final(self).journal == old(self).journal,
            final(self).busy == old(self).busy,
    {
        self.settings = settings;
    }

    /// The saved settings with accepted scan finds added to the targets.
    pub fn applied_settings(&self, accepted: &Vec<Recommendation>) -> (s: Settings)
        ensures
            s.profile@ == applied(self.settings.profile@, recs_view(accepted@)),
            s.version == self.settings.version,
            s.start_hidden == self.settings.start_hidden,
            s.close_to_tray == self.settings.close_to_tray,
            s.theme == self.settings.theme,
            s.notifications == self.settings.notifications,
            s.restore_on_quit == self.settings.restore_on_quit,
            s.auto_scan == self.settings.auto_scan,
    {
        let mut s = self.settings.copy();
        s.profile = apply(&self.settings.profile, accepted);
        s
    }

    /// Claims the engine for a quiet run and names the services whose state
    /// the platform must report. Refused while another run is in progress or
    /// while Quiet Mode is already on.
    pub fn start_quiet(&mut self) -> (r: Result<Vec<String>, AppError>)
        ensures
            old(self).busy ==> refused(r, "busy"@, "CompuQuiet is already working"@) && *final(self) == *old(self),
            !old(self).busy && old(self).journal is Some ==> refused(r, "already_quiet"@, "Quiet Mode is already on"@)
                && *final(self) == *old(self),
            !old(self).busy && old(self).journal is None ==> (r matches Ok(names) && strings_view(names@) == quiet_names(
                old(self).settings,
                old(self).os,
            ) && *final(self) == (Engine { busy: true, ..*old(self) })),
    {
        if self.busy {
            return Err(AppError::new("busy", String::from_str("CompuQuiet is already working")));
        }
        if self.journal.is_some() {
            return Err(AppError::new("already_quiet", String::from_str("Quiet Mode is already on")));
        }
        let names = if self.settings.auto_scan {
            service_names_to_query(&self.settings.profile, self.os)
        } else {
            enabled_service_names(&self.settings.profile.services)
        };
        self.busy = true;
        Ok(names)
    }

    /// The plan for this run. With auto-scan on, the scan's low-risk finds
    /// are parked too, without being saved as targets; `found` is what the
    /// scan of `snapshot` recommended (ignored with auto-scan off).
    pub fn plan_quiet(&self, snapshot: &Snapshot, found: &Vec<Recommendation>, self_pid: u32, started_at: u64) -> (run: QuietRun)
        ensures
            run.profile@ == if self.settings.auto_scan {
                applied(self.settings.profile@, low_risk(recs_view(found@)))
            } else {
                self.settings.profile@
            },
            steps_view(run.steps@) == planned(run.profile, *snapshot, self_pid, self.os, self.capabilities).0,
            skipped_view(run.skipped@) == planned(run.profile, *snapshot, self_pid, self.os, self.capabilities).1,
            run.journal.version == CURRENT_VERSION,
            run.journal.started_at == started_at,
            run.journal.done@.len() == 0,
            run.next == 0,
            if self.settings.auto_scan && low_risk(recs_view(found@)).len() > 0 {
                &&& run.log@.len() == 1
                &&& run.log@[0]@ == (
                    scan_label(low_risk(recs_view(found@)).len()),
                    true,
                    Some(joined(low_risk(recs_view(found@)).map_values(|x: crate::recommend::RecView| x.name), ", "@)),
                )
            } else {
                run.log@.len() == 0
            },
    {
        let mut log: Vec<LogLine> = Vec::new();
        let profile = if self.settings.auto_scan {
            let added = low_risk_additions(found);
            if added.len() > 0 {
                let mut label = String::from_str("Scan added ");
                push_decimal(&mut label, added.len() as u64);
                label.append(" low-risk target(s)");
                proof {
                    reveal_strlit("Scan added ");
                    reveal_strlit(" low-risk target(s)");
                }
                let line = LogLine { label, ok: true, detail: Some(join_names(&added)) };
                log.push(line);
            }
            apply(&self.settings.profile, &added)
        } else {
            self.settings.profile.copy()
        };
        let plan = build_plan(&profile, snapshot, self_pid, self.os, &self.capabilities);
        QuietRun {
            profile,
            steps: plan.steps,
            skipped: plan.skipped,
            journal: Journal::new(started_at),
            log,
            next: 0,
        }
    }

    /// Ends a quiet run: its journal is the one the engine keeps, and its log
    /// and skipped targets are what the window shows.
    pub fn finish_quiet(&mut self, run: QuietRun) -> (summary: Summary)
        ensures
            final(self).journal == Some(run.journal),
            final(self).log == run.log,
            final(self).skipped == run.skipped,
            !final(self).recovered,
            !final(self).busy,
            final(self).settings == old(self).settings,
            summarizes(summary, done_views(run.journal.done@)),
    {
        let summary = run.journal.summary();
        self.journal = Some(run.journal);
        self.log = run.log;
        self.skipped = run.skipped;
        self.recovered = false;
        self.busy = false;
        summary
    }

    /// Releases the engine after a run that stopped on an error.
    pub fn abort(&mut self)
        ensures
            *final(self) == (Engine { busy: false, ..*old(self) }),
    {
        self.busy = false;
    }

    /// Claims the engine for a restore of the journal. Refused while another
    /// run is in progress or when Quiet Mode is not on.
    pub fn start_restore(&mut self) -> (r: Result<RestoreRun, AppError>)
        ensures
            old(self).busy ==> (r matches Err(e) && e.code@ == "busy"@ && e.message@ == "CompuQuiet is already working"@
                && *final(self) == *old(self)),
            !old(self).busy && old(self).journal is None ==> (r matches Err(e) && e.code@ == "not_quiet"@ && e.message@
                == "Quiet Mode is not on"@ && *final(self) == *old(self)),
            !old(self).busy && old(self).journal is Some ==> (r matches Ok(run) && {
                &&& *final(self) == (Engine { busy: true, ..*old(self) })
                &&& run.journal.version == old(self).journal->0.version
                &&& run.journal.started_at == old(self).journal->0.started_at
                &&& done_views(run.journal.done@) == done_views(old(self).journal->0.done@)
                &&& indexed_views(run.steps@) == undo_plan(done_views(run.journal.done@), 0).0
                &&& run.failed@.is_empty()
                &&& run.log@.len() == 0
                &&& run.next == 0
            }),
    {
        if self.busy {
            return Err(AppError::new("busy", String::from_str("CompuQuiet is already working")));
        }
        match &self.journal {
            None => Err(AppError::new("not_quiet", String::from_str("Quiet Mode is not on"))),
            Some(j) => {
                let journal = j.copy();
                let steps = journal.restore_steps();
                self.busy = true;
                Ok(RestoreRun { journal, steps, failed: HashSet::new(), log: Vec::new(), next: 0 })
            },
        }
    }

    /// Ends a restore: only the entries whose undo failed stay in the
    /// journal, and with none left Quiet Mode is off. Returns how many
    /// entries still need attention.
    pub fn finish_restore(&mut self, run: RestoreRun) -> (remaining: usize)
        ensures
            remaining == retained(done_views(run.journal.done@), run.failed@, run.journal.done@.len() as int).len(),
            remaining == 0 ==> final(self).journal is None,
            remaining > 0 ==> (final(self).journal matches Some(j) && {
                &&& done_views(j.done@) == retained(done_views(run.journal.done@), run.failed@, run.journal.done@.len() as int)
                &&& j.version == run.journal.version
                &&& j.started_at == run.journal.started_at
            }),
            final(self).log == run.log,
            final(self).skipped@.len() == 0,
            !final(self).recovered,
            !final(self).busy,
            final(self).settings == old(self).settings,
    {
        let mut journal = run.journal;
        journal.retain(&run.failed);
        let remaining = journal.done.len();
        if remaining == 0 {
            self.journal = None;
        } else {
            self.journal = Some(journal);
        }
        self.log = run.log;
        self.skipped = Vec::new();
        self.recovered = false;
        self.busy = false;
        remaining
    }
}

} // verus!
