//! Turning a profile and a snapshot into an ordered list of steps.
//!
//! Pure: given what the user asked for and what is actually running, decide
//! exactly what to do and what to leave alone, with a reason for each thing
//! left alone so the dashboard can show it. Power first (instant, harmless),
//! then services, then processes, then the memory purge last so it reclaims
//! what the earlier steps released.

use vstd::prelude::*;
use crate::policy::{critical, is_critical, name_matches, normalize, normalized};
use crate::profile::{Os, PowerPolicy, ProcessAction, ProcessTarget, Profile, ServiceTarget};
use crate::snapshot::{opt_view, ProcessInfo, ServiceInfo, ServiceState, Snapshot};
use crate::text::push_decimal;

verus! {

/// What this platform, at this privilege level, can actually do.
#[derive(Debug, Clone, Copy, PartialEq, Eq, Default, Structural)]
pub struct Capabilities {
    pub services: bool,
    pub power: bool,
    pub memory_purge: bool,
    pub elevated: bool,
    /// Whether elevation is a thing on this platform that the app can request.
    pub can_elevate: bool,
}

#[derive(Debug, Clone, PartialEq, Eq)]
pub enum Step {
    SetPerformancePower,
    StopService { name: String },
    SuspendProcess { pid: u32, name: String, start_time: u64 },
    CloseProcess {
        pid: u32,
        name: String,
        exe: Option<String>,
        args: Vec<String>,
        cwd: Option<String>,
        start_time: u64,
    },
    PurgeMemory,
}

/// A step as plain values.
pub enum StepView {
    SetPerformancePower,
    StopService { name: Seq<char> },
    SuspendProcess { pid: u32, name: Seq<char>, start_time: u64 },
    CloseProcess {
        pid: u32,
        name: Seq<char>,
        exe: Option<Seq<char>>,
        args: Seq<Seq<char>>,
        cwd: Option<Seq<char>>,
        start_time: u64,
    },
    PurgeMemory,
}

/// The views of a list of strings.
pub open spec fn strings_view(v: Seq<String>) -> Seq<Seq<char>> {
    v.map_values(|s: String| s@)
}

impl View for Step {
    type V = StepView;

    open spec fn view(&self) -> StepView {
        match self {
            Step::SetPerformancePower => StepView::SetPerformancePower,
            Step::StopService { name } => StepView::StopService { name: name@ },
            Step::SuspendProcess { pid, name, start_time } => StepView::SuspendProcess {
                pid: *pid,
                name: name@,
                start_time: *start_time,
            },
            Step::CloseProcess { pid, name, exe, args, cwd, start_time } => StepView::CloseProcess {
                pid: *pid,
                name: name@,
                exe: opt_view(*exe),
                args: strings_view(args@),
                cwd: opt_view(*cwd),
                start_time: *start_time,
            },
            Step::PurgeMemory => StepView::PurgeMemory,
        }
    }
}

#[derive(Debug, Clone, PartialEq, Eq)]
pub struct Skipped {
    pub name: String,
    pub reason: String,
}

impl View for Skipped {
    type V = (Seq<char>, Seq<char>);

    open spec fn view(&self) -> (Seq<char>, Seq<char>) {
        (self.name@, self.reason@)
    }
}

#[derive(Debug, Clone, PartialEq, Eq, Default)]
pub struct Plan {
    pub steps: Vec<Step>,
    pub skipped: Vec<Skipped>,
}

pub open spec fn steps_view(v: Seq<Step>) -> Seq<StepView> {
    v.map_values(|s: Step| s@)
}

pub open spec fn skipped_view(v: Seq<Skipped>) -> Seq<(Seq<char>, Seq<char>)> {
    v.map_values(|s: Skipped| s@)
}

pub const NOT_AVAILABLE: &'static str = "not available on this system";
pub const NEEDS_ADMIN: &'static str = "needs administrator rights";
pub const NOT_INSTALLED: &'static str = "not installed";
pub const ALREADY_STOPPED: &'static str = "already stopped";
pub const CHANGING_STATE: &'static str = "changing state";
pub const PROTECTED: &'static str = "protected: essential to the desktop";
pub const KEPT_ALIVE: &'static str = "on your keep-alive list";
pub const NOT_RUNNING: &'static str = "not running";
pub const POWER_PLAN: &'static str = "Power plan";
pub const MEMORY_PURGE: &'static str = "Memory purge";

/// The state of the first service whose normalized name is `wanted`.
pub open spec fn found_state(services: Seq<ServiceInfo>, wanted: Seq<char>) -> Option<ServiceState>
    decreases services.len(),
{
    if services.len() == 0 {
        None
    } else if normalized(services[0].name@) == wanted {
        Some(services[0].state)
    } else {
        found_state(services.drop_first(), wanted)
    }
}

/// What the planner does with one enabled service target: a step, or a skip
/// with its reason.
pub open spec fn service_decision(t: ServiceTarget, services: Seq<ServiceInfo>, caps: Capabilities) -> Result<StepView, (Seq<char>, Seq<char>)> {
    match found_state(services, normalized(t.name@)) {
        None => Err((t.name@, NOT_INSTALLED@)),
        Some(ServiceState::NotInstalled) => Err((t.name@, NOT_INSTALLED@)),
        Some(ServiceState::Stopped) => Err((t.name@, ALREADY_STOPPED@)),
        Some(ServiceState::Transitioning) => Err((t.name@, CHANGING_STATE@)),
        Some(ServiceState::Running) => if caps.services {
            Ok(StepView::StopService { name: t.name@ })
        } else {
            Err((t.name@, NEEDS_ADMIN@))
        },
    }
}

/// The service steps and skips for a list of targets, in order.
pub open spec fn service_plan(targets: Seq<ServiceTarget>, services: Seq<ServiceInfo>, caps: Capabilities) -> (Seq<StepView>, Seq<(Seq<char>, Seq<char>)>)
    decreases targets.len(),
{
    if targets.len() == 0 {
        (Seq::empty(), Seq::empty())
    } else {
        let (steps, skips) = service_plan(targets.drop_last(), services, caps);
        let t = targets.last();
        if !t.enabled {
            (steps, skips)
        } else {
            match service_decision(t, services, caps) {
                Ok(step) => (steps.push(step), skips),
                Err(skip) => (steps, skips.push(skip)),
            }
        }
    }
}

/// The step that parks process `p` the way `action` says.
pub open spec fn park_step(action: ProcessAction, p: ProcessInfo) -> StepView {
    match action {
        ProcessAction::Suspend => StepView::SuspendProcess { pid: p.pid, name: p.name@, start_time: p.start_time },
        ProcessAction::Close => StepView::CloseProcess {
            pid: p.pid,
            name: p.name@,
            exe: opt_view(p.exe),
            args: strings_view(p.args@),
            cwd: opt_view(p.cwd),
            start_time: p.start_time,
        },
    }
}

/// Whether target `t` may act on process `p`: not this app, not already
/// claimed by an earlier target, named by `t`, and not critical.
pub open spec fn takes(t: ProcessTarget, p: ProcessInfo, self_pid: u32, os: Os, claimed: Seq<u32>) -> bool {
    &&& p.pid != self_pid
    &&& !claimed.contains(p.pid)
    &&& name_matches(t.name@, p.name@, p.stem())
    &&& !critical(p.name@, os)
}

/// The steps target `t` produces over the process table, and the PIDs
/// claimed afterwards.
pub open spec fn target_hits(t: ProcessTarget, procs: Seq<ProcessInfo>, self_pid: u32, os: Os, claimed: Seq<u32>) -> (Seq<StepView>, Seq<u32>)
    decreases procs.len(),
{
    if procs.len() == 0 {
        (Seq::empty(), claimed)
    } else {
        let (steps, c) = target_hits(t, procs.drop_last(), self_pid, os, claimed);
        let p = procs.last();
        if takes(t, p, self_pid, os, c) {
            (steps.push(park_step(t.action, p)), c.push(p.pid))
        } else {
            (steps, c)
        }
    }
}

/// Whether the keep-alive list names `name`.
pub open spec fn kept(keep_alive: Seq<String>, name: Seq<char>) -> bool {
    exists|i: int| 0 <= i < keep_alive.len() && #[trigger] normalized(keep_alive[i]@) == normalized(name)
}

/// The process steps and skips for a list of targets, in order, and the
/// PIDs claimed.
pub open spec fn process_plan(targets: Seq<ProcessTarget>, keep_alive: Seq<String>, procs: Seq<ProcessInfo>, self_pid: u32, os: Os) -> (Seq<StepView>, Seq<(Seq<char>, Seq<char>)>, Seq<u32>)
    decreases targets.len(),
{
    if targets.len() == 0 {
        (Seq::empty(), Seq::empty(), Seq::empty())
    } else {
        let (steps, skips, claimed) = process_plan(targets.drop_last(), keep_alive, procs, self_pid, os);
        let t = targets.last();
        if !t.enabled {
            (steps, skips, claimed)
        } else if critical(t.name@, os) {
            (steps, skips.push((t.name@, PROTECTED@)), claimed)
        } else if kept(keep_alive, t.name@) {
            (steps, skips.push((t.name@, KEPT_ALIVE@)), claimed)
        } else {
            let (hits, c) = target_hits(t, procs, self_pid, os, claimed);
            if hits.len() == 0 {
                (steps, skips.push((t.name@, NOT_RUNNING@)), c)
            } else {
                (steps + hits, skips, c)
            }
        }
    }
}

/// The power step or skip.
pub open spec fn power_plan(profile: Profile, caps: Capabilities) -> (Seq<StepView>, Seq<(Seq<char>, Seq<char>)>) {
    if profile.power == PowerPolicy::Performance {
        if caps.power {
            (seq![StepView::SetPerformancePower], Seq::empty())
        } else {
            (Seq::empty(), seq![(POWER_PLAN@, NOT_AVAILABLE@)])
        }
    } else {
        (Seq::empty(), Seq::empty())
    }
}

/// The memory purge step or skip.
pub open spec fn purge_plan(profile: Profile, caps: Capabilities) -> (Seq<StepView>, Seq<(Seq<char>, Seq<char>)>) {
    if profile.purge_memory {
        if caps.memory_purge {
            (seq![StepView::PurgeMemory], Seq::empty())
        } else if caps.can_elevate && !caps.elevated {
            (Seq::empty(), seq![(MEMORY_PURGE@, NEEDS_ADMIN@)])
        } else {
            (Seq::empty(), seq![(MEMORY_PURGE@, NOT_AVAILABLE@)])
        }
    } else {
        (Seq::empty(), Seq::empty())
    }
}

/// The whole plan: power, services, processes, purge, in that order.
pub open spec fn planned(profile: Profile, snapshot: Snapshot, self_pid: u32, os: Os, caps: Capabilities) -> (Seq<StepView>, Seq<(Seq<char>, Seq<char>)>) {
    let (ps, pk) = power_plan(profile, caps);
    let (ss, sk) = service_plan(profile.services@, snapshot.services@, caps);
    let (qs, qk, _claimed) = process_plan(profile.processes@, profile.keep_alive@, snapshot.processes@, self_pid, os);
    let (ms, mk) = purge_plan(profile, caps);
    (ps + ss + qs + ms, pk + sk + qk + mk)
}


/// A string with the same characters.
pub fn copy_string(s: &String) -> (r: String)
    ensures
        r@ == s@,
{
    s.clone()
}

/// An optional string with the same characters.
pub fn copy_opt(o: &Option<String>) -> (r: Option<String>)
    ensures
        opt_view(r) == opt_view(*o),
{
    match o {
        Some(s) => Some(s.clone()),
        None => None,
    }
}

/// A list of strings with the same characters.
pub fn copy_strings(v: &Vec<String>) -> (r: Vec<String>)
    ensures
        strings_view(r@) == strings_view(v@),
{
    let mut r: Vec<String> = Vec::new();
    let mut i: usize = 0;
    while i < v.len()
        invariant
            i <= v@.len(),
            strings_view(r@) == strings_view(v@.take(i as int)),
        decreases v.len() - i,
    {
        let c = copy_string(&v[i]);
        let ghost before = r@;
        r.push(c);
        assert(r@ == before.push(c));
        assert(strings_view(r@) =~= strings_view(before).push(v@[i as int]@));
        assert(v@.take(i + 1) =~= v@.take(i as int).push(v@[i as int]));
        assert(strings_view(v@.take(i + 1)) =~= strings_view(v@.take(i as int)).push(v@[i as int]@));
        i = i + 1;
    }
    assert(v@.take(v@.len() as int) =~= v@);
    r
}

/// The progress label of a step.
pub open spec fn step_label(s: StepView) -> Seq<char> {
    match s {
        StepView::SetPerformancePower => "Switch to the performance power plan"@,
        StepView::StopService { name } => "Stop service "@ + name,
        StepView::SuspendProcess { pid, name, .. } => "Suspend "@ + name + " (PID "@ + crate::text::decimal(pid as nat) + ")"@,
        StepView::CloseProcess { pid, name, .. } => "Close "@ + name + " (PID "@ + crate::text::decimal(pid as nat) + ")"@,
        StepView::PurgeMemory => "Purge cached memory"@,
    }
}

/// `head`, then `name`, then ` (PID <pid>)`.
pub fn pid_label(head: &str, name: &String, pid: u32) -> (r: String)
    ensures
        r@ == head@ + name@ + " (PID "@ + crate::text::decimal(pid as nat) + ")"@,
{
    let mut r = String::from_str(head);
    r.append(name.as_str());
    r.append(" (PID ");
    push_decimal(&mut r, pid as u64);
    r.append(")");
    r
}

impl Step {
    /// A short label for progress reporting.
    pub fn label(&self) -> (r: String)
        ensures
            r@ == step_label(self@),
    {
        match self {
            Step::SetPerformancePower => String::from_str("Switch to the performance power plan"),
            Step::StopService { name } => {
                let mut r = String::from_str("Stop service ");
                r.append(name.as_str());
                r
            },
            Step::SuspendProcess { name, pid, .. } => pid_label("Suspend ", name, *pid),
            Step::CloseProcess { name, pid, .. } => pid_label("Close ", name, *pid),
            Step::PurgeMemory => String::from_str("Purge cached memory"),
        }
    }
}

impl Plan {
    /// Record that `name` was left alone, and why.
    pub fn skip(&mut self, name: &str, reason: &str)
        ensures
            final(self).steps@ == old(self).steps@,
            skipped_view(final(self).skipped@) == skipped_view(old(self).skipped@).push((name@, reason@)),
    {
        self.skipped.push(Skipped { name: String::from_str(name), reason: String::from_str(reason) });
        assert(skipped_view(self.skipped@) =~= skipped_view(old(self).skipped@).push((name@, reason@)));
    }

    /// Append a step.
    pub fn add(&mut self, step: Step)
        ensures
            steps_view(final(self).steps@) == steps_view(old(self).steps@).push(step@),
            final(self).skipped@ == old(self).skipped@,
    {
        self.steps.push(step);
        assert(steps_view(self.steps@) =~= steps_view(old(self).steps@).push(step@));
    }
}

/// The state of the first service whose normalized name is `wanted`.
fn find_state(services: &Vec<ServiceInfo>, wanted: &String) -> (r: Option<ServiceState>)
    ensures
        r == found_state(services@, wanted@),
{
    let mut i: usize = 0;
    assert(services@.skip(0) =~= services@);
    while i < services.len()
        invariant
            i <= services@.len(),
            found_state(services@, wanted@) == found_state(services@.skip(i as int), wanted@),
        decreases services.len() - i,
    {
        let name = normalize(services[i].name.as_str());
        assert(services@.skip(i as int)[0] == services@[i as int]);
        if name == *wanted {
            return Some(services[i].state);
        }
        assert(services@.skip(i as int).drop_first() =~= services@.skip(i + 1));
        i = i + 1;
    }
    None
}

proof fn lemma_service_plan_step(targets: Seq<ServiceTarget>, i: int, services: Seq<ServiceInfo>, caps: Capabilities)
    requires
        0 <= i < targets.len(),
    ensures
        service_plan(targets.take(i + 1), services, caps) == ({
            let (steps, skips) = service_plan(targets.take(i), services, caps);
            let t = targets[i];
            if !t.enabled {
                (steps, skips)
            } else {
                match service_decision(t, services, caps) {
                    Ok(step) => (steps.push(step), skips),
                    Err(skip) => (steps, skips.push(skip)),
                }
            }
        }),
{
    assert(targets.take(i + 1).drop_last() =~= targets.take(i));
}

fn plan_services(profile: &Profile, snapshot: &Snapshot, caps: &Capabilities, plan: &mut Plan)
    ensures
        steps_view(final(plan).steps@) == steps_view(old(plan).steps@) + service_plan(profile.services@, snapshot.services@, *caps).0,
        skipped_view(final(plan).skipped@) == skipped_view(old(plan).skipped@) + service_plan(profile.services@, snapshot.services@, *caps).1,
{
    let ghost steps0 = steps_view(plan.steps@);
    let ghost skips0 = skipped_view(plan.skipped@);
    let targets = &profile.services;
    let mut i: usize = 0;
    assert(targets@.take(0) =~= Seq::<ServiceTarget>::empty());
    assert(steps0 + Seq::<StepView>::empty() =~= steps0);
    assert(skips0 + Seq::<(Seq<char>, Seq<char>)>::empty() =~= skips0);
    while i < targets.len()
        invariant
            i <= targets@.len(),
            steps_view(plan.steps@) == steps0 + service_plan(targets@.take(i as int), snapshot.services@, *caps).0,
            skipped_view(plan.skipped@) == skips0 + service_plan(targets@.take(i as int), snapshot.services@, *caps).1,
        decreases targets.len() - i,
    {
        proof {
            lemma_service_plan_step(targets@, i as int, snapshot.services@, *caps);
        }
        let ghost before = service_plan(targets@.take(i as int), snapshot.services@, *caps);
        let target = &targets[i];
        if target.enabled {
            let wanted = normalize(target.name.as_str());
            match find_state(&snapshot.services, &wanted) {
                None => plan.skip(target.name.as_str(), NOT_INSTALLED),
                Some(ServiceState::NotInstalled) => plan.skip(target.name.as_str(), NOT_INSTALLED),
                Some(ServiceState::Stopped) => plan.skip(target.name.as_str(), ALREADY_STOPPED),
                Some(ServiceState::Transitioning) => plan.skip(target.name.as_str(), CHANGING_STATE),
                Some(ServiceState::Running) => {
                    if !caps.services {
                        plan.skip(target.name.as_str(), NEEDS_ADMIN);
                    } else {
                        plan.add(Step::StopService { name: copy_string(&target.name) });
                    }
                },
            }
            assert(skips0 + before.1.push((target.name@, NOT_INSTALLED@)) =~= (skips0 + before.1).push((target.name@, NOT_INSTALLED@)));
            assert(skips0 + before.1.push((target.name@, ALREADY_STOPPED@)) =~= (skips0 + before.1).push((target.name@, ALREADY_STOPPED@)));
            assert(skips0 + before.1.push((target.name@, CHANGING_STATE@)) =~= (skips0 + before.1).push((target.name@, CHANGING_STATE@)));
            assert(skips0 + before.1.push((target.name@, NEEDS_ADMIN@)) =~= (skips0 + before.1).push((target.name@, NEEDS_ADMIN@)));
            assert(steps0 + before.0.push(StepView::StopService { name: target.name@ }) =~= (steps0 + before.0).push(StepView::StopService { name: target.name@ }));
        }
        i = i + 1;
    }
    assert(targets@.take(targets@.len() as int) =~= targets@);
}


/// The step that parks `p` the way `action` says.
fn park(action: ProcessAction, p: &ProcessInfo) -> (s: Step)
    ensures
        s@ == park_step(action, *p),
{
    match action {
        ProcessAction::Suspend => Step::SuspendProcess {
            pid: p.pid,
            name: copy_string(&p.name),
            start_time: p.start_time,
        },
        ProcessAction::Close => Step::CloseProcess {
            pid: p.pid,
            name: copy_string(&p.name),
            exe: copy_opt(&p.exe),
            args: copy_strings(&p.args),
            cwd: copy_opt(&p.cwd),
            start_time: p.start_time,
        },
    }
}

/// Whether `pid` is in `v`.
pub fn contains_pid(v: &Vec<u32>, pid: u32) -> (r: bool)
    ensures
        r == v@.contains(pid),
{
    let mut i: usize = 0;
    while i < v.len()
        invariant
            i <= v@.len(),
            forall|k: int| 0 <= k < i ==> v@[k] != pid,
        decreases v.len() - i,
    {
        if v[i] == pid {
            assert(v@[i as int] == pid);
            return true;
        }
        i = i + 1;
    }
    false
}

/// Whether the keep-alive list names `name`.
fn is_kept(keep_alive: &Vec<String>, name: &String) -> (r: bool)
    ensures
        r == kept(keep_alive@, name@),
{
    let wanted = normalize(name.as_str());
    let mut i: usize = 0;
    while i < keep_alive.len()
        invariant
            i <= keep_alive@.len(),
            wanted@ == normalized(name@),
            forall|k: int| 0 <= k < i ==> #[trigger] normalized(keep_alive@[k]@) != normalized(name@),
        decreases keep_alive.len() - i,
    {
        let other = normalize(keep_alive[i].as_str());
        if other == wanted {
            assert(normalized(keep_alive@[i as int]@) == normalized(name@));
            return true;
        }
        i = i + 1;
    }
    false
}

proof fn lemma_target_hits_step(t: ProcessTarget, procs: Seq<ProcessInfo>, j: int, self_pid: u32, os: Os, claimed: Seq<u32>)
    requires
        0 <= j < procs.len(),
    ensures
        target_hits(t, procs.take(j + 1), self_pid, os, claimed) == ({
            let (steps, c) = target_hits(t, procs.take(j), self_pid, os, claimed);
            let p = procs[j];
            if takes(t, p, self_pid, os, c) {
                (steps.push(park_step(t.action, p)), c.push(p.pid))
            } else {
                (steps, c)
            }
        }),
{
    assert(procs.take(j + 1).drop_last() =~= procs.take(j));
}

/// The processes `t` parks, appended to the plan; the PIDs it takes are
/// added to `claimed`.
fn plan_target(t: &ProcessTarget, procs: &Vec<ProcessInfo>, self_pid: u32, os: Os, claimed: &mut Vec<u32>, plan: &mut Plan) -> (hits: usize)
    ensures
        final(claimed)@ == target_hits(*t, procs@, self_pid, os, old(claimed)@).1,
        steps_view(final(plan).steps@) == steps_view(old(plan).steps@) + target_hits(*t, procs@, self_pid, os, old(claimed)@).0,
        hits == target_hits(*t, procs@, self_pid, os, old(claimed)@).0.len(),
        final(plan).skipped@ == old(plan).skipped@,
{
    let ghost c0 = claimed@;
    let ghost s0 = steps_view(plan.steps@);
    let mut hits: usize = 0;
    let mut j: usize = 0;
    assert(procs@.take(0) =~= Seq::<ProcessInfo>::empty());
    assert(s0 + Seq::<StepView>::empty() =~= s0);
    while j < procs.len()
        invariant
            j <= procs@.len(),
            claimed@ == target_hits(*t, procs@.take(j as int), self_pid, os, c0).1,
            steps_view(plan.steps@) == s0 + target_hits(*t, procs@.take(j as int), self_pid, os, c0).0,
            hits == target_hits(*t, procs@.take(j as int), self_pid, os, c0).0.len(),
            hits <= j,
            plan.skipped@ == old(plan).skipped@,
        decreases procs.len() - j,
    {
        proof {
            lemma_target_hits_step(*t, procs@, j as int, self_pid, os, c0);
        }
        let ghost before = target_hits(*t, procs@.take(j as int), self_pid, os, c0);
        let p = &procs[j];
        if p.pid != self_pid && !contains_pid(claimed, p.pid) {
            let stem = p.exe_stem();
            let hit = match &stem {
                Some(s) => crate::policy::matches(t.name.as_str(), p.name.as_str(), Some(s.as_str())),
                None => crate::policy::matches(t.name.as_str(), p.name.as_str(), None),
            };
            if hit && !is_critical(p.name.as_str(), os) {
                claimed.push(p.pid);
                let step = park(t.action, p);
                plan.add(step);
                hits = hits + 1;
                assert(s0 + before.0.push(park_step(t.action, *p)) =~= (s0 + before.0).push(park_step(t.action, *p)));
            }
        }
        j = j + 1;
    }
    assert(procs@.take(procs@.len() as int) =~= procs@);
    hits
}

proof fn lemma_process_plan_step(targets: Seq<ProcessTarget>, i: int, keep_alive: Seq<String>, procs: Seq<ProcessInfo>, self_pid: u32, os: Os)
    requires
        0 <= i < targets.len(),
    ensures
        process_plan(targets.take(i + 1), keep_alive, procs, self_pid, os) == ({
            let (steps, skips, claimed) = process_plan(targets.take(i), keep_alive, procs, self_pid, os);
            let t = targets[i];
            if !t.enabled {
                (steps, skips, claimed)
            } else if critical(t.name@, os) {
                (steps, skips.push((t.name@, PROTECTED@)), claimed)
            } else if kept(keep_alive, t.name@) {
                (steps, skips.push((t.name@, KEPT_ALIVE@)), claimed)
            } else {
                let (hits, c) = target_hits(t, procs, self_pid, os, claimed);
                if hits.len() == 0 {
                    (steps, skips.push((t.name@, NOT_RUNNING@)), c)
                } else {
                    (steps + hits, skips, c)
                }
            }
        }),
{
    assert(targets.take(i + 1).drop_last() =~= targets.take(i));
}

fn plan_processes(profile: &Profile, snapshot: &Snapshot, self_pid: u32, os: Os, plan: &mut Plan)
    ensures
        steps_view(final(plan).steps@) == steps_view(old(plan).steps@) + process_plan(profile.processes@, profile.keep_alive@, snapshot.processes@, self_pid, os).0,
        skipped_view(final(plan).skipped@) == skipped_view(old(plan).skipped@) + process_plan(profile.processes@, profile.keep_alive@, snapshot.processes@, self_pid, os).1,
{
    let ghost steps0 = steps_view(plan.steps@);
    let ghost skips0 = skipped_view(plan.skipped@);
    let targets = &profile.processes;
    let ghost keep = profile.keep_alive@;
    let ghost procs = snapshot.processes@;
    let mut claimed: Vec<u32> = Vec::new();
    let mut i: usize = 0;
    assert(targets@.take(0) =~= Seq::<ProcessTarget>::empty());
    assert(steps0 + Seq::<StepView>::empty() =~= steps0);
    assert(skips0 + Seq::<(Seq<char>, Seq<char>)>::empty() =~= skips0);
    assert(claimed@ =~= Seq::<u32>::empty());
    while i < targets.len()
        invariant
            i <= targets@.len(),
            keep == profile.keep_alive@,
            procs == snapshot.processes@,
            steps_view(plan.steps@) == steps0 + process_plan(targets@.take(i as int), keep, procs, self_pid, os).0,
            skipped_view(plan.skipped@) == skips0 + process_plan(targets@.take(i as int), keep, procs, self_pid, os).1,
            claimed@ == process_plan(targets@.take(i as int), keep, procs, self_pid, os).2,
        decreases targets.len() - i,
    {
        proof {
            lemma_process_plan_step(targets@, i as int, keep, procs, self_pid, os);
        }
        let ghost before = process_plan(targets@.take(i as int), keep, procs, self_pid, os);
        let target = &targets[i];
        if target.enabled {
            if is_critical(target.name.as_str(), os) {
                plan.skip(target.name.as_str(), PROTECTED);
                assert(skips0 + before.1.push((target.name@, PROTECTED@)) =~= (skips0 + before.1).push((target.name@, PROTECTED@)));
            } else if is_kept(&profile.keep_alive, &target.name) {
                plan.skip(target.name.as_str(), KEPT_ALIVE);
                assert(skips0 + before.1.push((target.name@, KEPT_ALIVE@)) =~= (skips0 + before.1).push((target.name@, KEPT_ALIVE@)));
            } else {
                let ghost hits_spec = target_hits(*target, procs, self_pid, os, claimed@);
                let hits = plan_target(target, &snapshot.processes, self_pid, os, &mut claimed, plan);
                if hits == 0 {
                    assert(hits_spec.0 =~= Seq::<StepView>::empty());
                    assert(steps0 + before.0 + hits_spec.0 =~= steps0 + before.0);
                    plan.skip(target.name.as_str(), NOT_RUNNING);
                    assert(skips0 + before.1.push((target.name@, NOT_RUNNING@)) =~= (skips0 + before.1).push((target.name@, NOT_RUNNING@)));
                } else {
                    assert(steps0 + before.0 + hits_spec.0 =~= steps0 + (before.0 + hits_spec.0));
                }
            }
        }
        i = i + 1;
    }
    assert(targets@.take(targets@.len() as int) =~= targets@);
}

pub fn build_plan(profile: &Profile, snapshot: &Snapshot, self_pid: u32, os: Os, caps: &Capabilities) -> (plan: Plan)
    ensures
        steps_view(plan.steps@) == planned(*profile, *snapshot, self_pid, os, *caps).0,
        skipped_view(plan.skipped@) == planned(*profile, *snapshot, self_pid, os, *caps).1,
{
    let mut plan = Plan { steps: Vec::new(), skipped: Vec::new() };
    assert(steps_view(plan.steps@) =~= Seq::<StepView>::empty());
    assert(skipped_view(plan.skipped@) =~= Seq::<(Seq<char>, Seq<char>)>::empty());
    if profile.power == PowerPolicy::Performance {
        if caps.power {
            plan.add(Step::SetPerformancePower);
        } else {
            plan.skip(POWER_PLAN, NOT_AVAILABLE);
        }
    }
    let ghost (ps, pk) = power_plan(*profile, *caps);
    assert(steps_view(plan.steps@) =~= ps);
    assert(skipped_view(plan.skipped@) =~= pk);
    plan_services(profile, snapshot, caps, &mut plan);
    plan_processes(profile, snapshot, self_pid, os, &mut plan);
    let ghost mid_steps = steps_view(plan.steps@);
    let ghost mid_skips = skipped_view(plan.skipped@);
    if profile.purge_memory {
        if caps.memory_purge {
            plan.add(Step::PurgeMemory);
        } else if caps.can_elevate && !caps.elevated {
            plan.skip(MEMORY_PURGE, NEEDS_ADMIN);
        } else {
            plan.skip(MEMORY_PURGE, NOT_AVAILABLE);
        }
    }
    let ghost (ms, mk) = purge_plan(*profile, *caps);
    assert(steps_view(plan.steps@) =~= mid_steps + ms);
    assert(skipped_view(plan.skipped@) =~= mid_skips + mk);
    plan
}


/// Where a step belongs in the order: power, services, processes, purge.
pub open spec fn step_rank(s: StepView) -> int {
    match s {
        StepView::SetPerformancePower => 0,
        StepView::StopService { .. } => 1,
        StepView::SuspendProcess { .. } => 2,
        StepView::CloseProcess { .. } => 2,
        StepView::PurgeMemory => 3,
    }
}

/// The PID a process step acts on.
pub open spec fn step_pid(s: StepView) -> u32 {
    match s {
        StepView::SuspendProcess { pid, .. } => pid,
        StepView::CloseProcess { pid, .. } => pid,
        _ => 0,
    }
}

pub open spec fn step_pids(s: Seq<StepView>) -> Seq<u32> {
    s.map_values(|x: StepView| step_pid(x))
}

pub open spec fn distinct(s: Seq<u32>) -> bool {
    forall|i: int, j: int| 0 <= i < j < s.len() ==> s[i] != s[j]
}

/// `s` parks process `p` for target `t`, and every rule allowed it: the
/// target is enabled, not critical and not kept alive; the process is not
/// this app, not critical, and named by the target.
pub open spec fn parks_for(s: StepView, t: ProcessTarget, p: ProcessInfo, keep_alive: Seq<String>, self_pid: u32, os: Os) -> bool {
    &&& t.enabled
    &&& !critical(t.name@, os)
    &&& !kept(keep_alive, t.name@)
    &&& p.pid != self_pid
    &&& !critical(p.name@, os)
    &&& name_matches(t.name@, p.name@, p.stem())
    &&& s == park_step(t.action, p)
}

/// A process step is justified by some target of the profile and some
/// process of the snapshot.
pub open spec fn justified(s: StepView, profile: Profile, snapshot: Snapshot, self_pid: u32, os: Os) -> bool {
    exists|j: int, i: int|
        0 <= j < profile.processes@.len() && 0 <= i < snapshot.processes@.len() && parks_for(
            s,
            #[trigger] profile.processes@[j],
            #[trigger] snapshot.processes@[i],
            profile.keep_alive@,
            self_pid,
            os,
        )
}

/// A service step stops a service that an enabled target names and that is
/// running, on a platform that can stop services.
pub open spec fn stops_running(s: StepView, profile: Profile, snapshot: Snapshot, caps: Capabilities) -> bool {
    exists|j: int|
        0 <= j < profile.services@.len() && {
            let t = #[trigger] profile.services@[j];
            &&& t.enabled
            &&& caps.services
            &&& found_state(snapshot.services@, normalized(t.name@)) == Some(ServiceState::Running)
            &&& s == StepView::StopService { name: t.name@ }
        }
}

proof fn lemma_target_hits(t: ProcessTarget, procs: Seq<ProcessInfo>, self_pid: u32, os: Os, claimed: Seq<u32>)
    ensures
        ({
            let (h, c) = target_hits(t, procs, self_pid, os, claimed);
            &&& c == claimed + step_pids(h)
            &&& distinct(claimed) ==> distinct(c)
            &&& forall|k: int| 0 <= k < h.len() ==> exists|i: int| 0 <= i < procs.len() && {
                &&& (#[trigger] procs[i]).pid != self_pid
                &&& !critical(procs[i].name@, os)
                &&& name_matches(t.name@, procs[i].name@, procs[i].stem())
                &&& #[trigger] h[k] == park_step(t.action, procs[i])
            }
        }),
    decreases procs.len(),
{
    if procs.len() == 0 {
        assert(claimed + step_pids(Seq::<StepView>::empty()) =~= claimed);
    } else {
        lemma_target_hits(t, procs.drop_last(), self_pid, os, claimed);
        let (h0, c0) = target_hits(t, procs.drop_last(), self_pid, os, claimed);
        let p = procs.last();
        let (h, c) = target_hits(t, procs, self_pid, os, claimed);
        assert forall|k: int| 0 <= k < h0.len() implies exists|i: int| 0 <= i < procs.len() && {
            &&& (#[trigger] procs[i]).pid != self_pid
            &&& !critical(procs[i].name@, os)
            &&& name_matches(t.name@, procs[i].name@, procs[i].stem())
            &&& #[trigger] h0[k] == park_step(t.action, procs[i])
        } by {
            let i = choose|i: int| 0 <= i < procs.drop_last().len() && {
                &&& (#[trigger] procs.drop_last()[i]).pid != self_pid
                &&& !critical(procs.drop_last()[i].name@, os)
                &&& name_matches(t.name@, procs.drop_last()[i].name@, procs.drop_last()[i].stem())
                &&& #[trigger] h0[k] == park_step(t.action, procs.drop_last()[i])
            };
            assert(procs.drop_last()[i] == procs[i]);
        }
        if takes(t, p, self_pid, os, c0) {
            let x = park_step(t.action, p);
            assert(step_pid(x) == p.pid);
            assert(step_pids(h0.push(x)) =~= step_pids(h0).push(p.pid));
            assert(c0.push(p.pid) =~= claimed + step_pids(h0.push(x)));
            assert(h[h0.len() as int] == park_step(t.action, procs[procs.len() - 1]));
            if distinct(claimed) {
                assert forall|a: int, b: int| 0 <= a < b < c.len() implies c[a] != c[b] by {
                    if b == c.len() - 1 {
                        assert(c0.contains(c0[a]));
                    }
                }
            }
        }
    }
}

proof fn lemma_process_plan(targets: Seq<ProcessTarget>, keep_alive: Seq<String>, procs: Seq<ProcessInfo>, self_pid: u32, os: Os)
    ensures
        ({
            let (steps, _skips, claimed) = process_plan(targets, keep_alive, procs, self_pid, os);
            &&& claimed == step_pids(steps)
            &&& distinct(claimed)
            &&& forall|k: int| 0 <= k < steps.len() ==> exists|j: int, i: int|
                0 <= j < targets.len() && 0 <= i < procs.len() && parks_for(
                    #[trigger] steps[k],
                    #[trigger] targets[j],
                    #[trigger] procs[i],
                    keep_alive,
                    self_pid,
                    os,
                )
        }),
    decreases targets.len(),
{
    if targets.len() == 0 {
        assert(step_pids(Seq::<StepView>::empty()) =~= Seq::<u32>::empty());
    } else {
        lemma_process_plan(targets.drop_last(), keep_alive, procs, self_pid, os);
        let (s0, k0, c0) = process_plan(targets.drop_last(), keep_alive, procs, self_pid, os);
        let (steps, skips, claimed) = process_plan(targets, keep_alive, procs, self_pid, os);
        let t = targets.last();
        assert forall|k: int| 0 <= k < s0.len() implies exists|j: int, i: int|
            0 <= j < targets.len() && 0 <= i < procs.len() && parks_for(
                #[trigger] s0[k],
                #[trigger] targets[j],
                #[trigger] procs[i],
                keep_alive,
                self_pid,
                os,
            ) by {
            let (j, i) = choose|j: int, i: int|
                0 <= j < targets.drop_last().len() && 0 <= i < procs.len() && parks_for(
                    #[trigger] s0[k],
                    #[trigger] targets.drop_last()[j],
                    #[trigger] procs[i],
                    keep_alive,
                    self_pid,
                    os,
                );
            assert(targets.drop_last()[j] == targets[j]);
        }
        if t.enabled && !critical(t.name@, os) && !kept(keep_alive, t.name@) {
            lemma_target_hits(t, procs, self_pid, os, c0);
            let (h, c) = target_hits(t, procs, self_pid, os, c0);
            assert(step_pids(s0 + h) =~= step_pids(s0) + step_pids(h));
            if h.len() != 0 {
                assert forall|k: int| 0 <= k < steps.len() implies exists|j: int, i: int|
                    0 <= j < targets.len() && 0 <= i < procs.len() && parks_for(
                        #[trigger] steps[k],
                        #[trigger] targets[j],
                        #[trigger] procs[i],
                        keep_alive,
                        self_pid,
                        os,
                    ) by {
                    if k < s0.len() {
                        assert(steps[k] == s0[k]);
                    } else {
                        let m = k - s0.len();
                        assert(steps[k] == h[m]);
                        let i = choose|i: int| 0 <= i < procs.len() && {
                            &&& (#[trigger] procs[i]).pid != self_pid
                            &&& !critical(procs[i].name@, os)
                            &&& name_matches(t.name@, procs[i].name@, procs[i].stem())
                            &&& #[trigger] h[m] == park_step(t.action, procs[i])
                        };
                        assert(targets[targets.len() - 1] == t);
                        assert(parks_for(steps[k], targets[targets.len() - 1], procs[i], keep_alive, self_pid, os));
                    }
                }
            } else {
                assert(h =~= Seq::<StepView>::empty());
                assert(c =~= c0);
            }
        }
    }
}

proof fn lemma_service_plan(targets: Seq<ServiceTarget>, services: Seq<ServiceInfo>, caps: Capabilities)
    ensures
        forall|k: int| 0 <= k < service_plan(targets, services, caps).0.len() ==> exists|j: int|
            0 <= j < targets.len() && {
                let t = #[trigger] targets[j];
                &&& t.enabled
                &&& caps.services
                &&& found_state(services, normalized(t.name@)) == Some(ServiceState::Running)
                &&& #[trigger] service_plan(targets, services, caps).0[k] == StepView::StopService { name: t.name@ }
            },
    decreases targets.len(),
{
    if targets.len() > 0 {
        lemma_service_plan(targets.drop_last(), services, caps);
        let (s0, k0) = service_plan(targets.drop_last(), services, caps);
        let steps = service_plan(targets, services, caps).0;
        assert forall|k: int| 0 <= k < steps.len() implies exists|j: int|
            0 <= j < targets.len() && {
                let t = #[trigger] targets[j];
                &&& t.enabled
                &&& caps.services
                &&& found_state(services, normalized(t.name@)) == Some(ServiceState::Running)
                &&& #[trigger] steps[k] == StepView::StopService { name: t.name@ }
            } by {
            if k < s0.len() {
                assert(steps[k] == s0[k]);
                let j = choose|j: int|
                    0 <= j < targets.drop_last().len() && {
                        let t = #[trigger] targets.drop_last()[j];
                        &&& t.enabled
                        &&& caps.services
                        &&& found_state(services, normalized(t.name@)) == Some(ServiceState::Running)
                        &&& #[trigger] s0[k] == StepView::StopService { name: t.name@ }
                    };
                assert(targets.drop_last()[j] == targets[j]);
            } else {
                assert(targets[targets.len() - 1] == targets.last());
            }
        }
    }
}

/// What the planner promises, whatever the profile and the snapshot:
/// the steps come in the order power, services, processes, purge; every
/// service step stops a running service that an enabled target names; every
/// process step parks a process that an enabled, non-critical, non-kept
/// target names and that is neither critical nor this app; and no process is
/// acted on twice; the power switch and the purge each come at most
/// once.
pub proof fn lemma_plan_is_safe(profile: Profile, snapshot: Snapshot, self_pid: u32, os: Os, caps: Capabilities)
    ensures
        ({
            let steps = planned(profile, snapshot, self_pid, os, caps).0;
            &&& forall|a: int, b: int| 0 <= a < b < steps.len() ==> step_rank(steps[a]) <= step_rank(steps[b])
            &&& forall|k: int| 0 <= k < steps.len() && (#[trigger] steps[k]) is StopService ==> stops_running(steps[k], profile, snapshot, caps)
            &&& forall|k: int| 0 <= k < steps.len() && step_rank(#[trigger] steps[k]) == 2 ==> justified(steps[k], profile, snapshot, self_pid, os)
            &&& forall|a: int, b: int| 0 <= a < b < steps.len() && step_rank(steps[a]) == 2 && step_rank(steps[b]) == 2 ==> step_pid(steps[a]) != step_pid(steps[b])
            &&& forall|a: int, b: int| 0 <= a < b < steps.len() ==> !(steps[a] is SetPerformancePower && steps[b] is SetPerformancePower)
            &&& forall|a: int, b: int| 0 <= a < b < steps.len() ==> !(steps[a] is PurgeMemory && steps[b] is PurgeMemory)
        }),
{
    let (ps, pk) = power_plan(profile, caps);
    let (ss, sk) = service_plan(profile.services@, snapshot.services@, caps);
    let (qs, qk, claimed) = process_plan(profile.processes@, profile.keep_alive@, snapshot.processes@, self_pid, os);
    let (ms, mk) = purge_plan(profile, caps);
    lemma_service_plan(profile.services@, snapshot.services@, caps);
    lemma_process_plan(profile.processes@, profile.keep_alive@, snapshot.processes@, self_pid, os);
    let steps = planned(profile, snapshot, self_pid, os, caps).0;
    assert(steps == ps + ss + qs + ms);
    let n1 = ps.len() as int;
    let n2 = n1 + ss.len();
    let n3 = n2 + qs.len();
    assert forall|k: int| 0 <= k < steps.len() implies {
        &&& (k < n1 ==> step_rank(steps[k]) == 0)
        &&& (n1 <= k < n2 ==> steps[k] == ss[k - n1] && step_rank(steps[k]) == 1)
        &&& (n2 <= k < n3 ==> steps[k] == qs[k - n2] && step_rank(steps[k]) == 2)
        &&& (n3 <= k ==> step_rank(steps[k]) == 3)
    } by {
        if k < n1 {
            assert(steps[k] == ps[k]);
        } else if k < n2 {
            assert(steps[k] == ss[k - n1]);
        } else if k < n3 {
            assert(steps[k] == qs[k - n2]);
            let (j, i) = choose|j: int, i: int|
                0 <= j < profile.processes@.len() && 0 <= i < snapshot.processes@.len() && parks_for(
                    #[trigger] qs[k - n2],
                    #[trigger] profile.processes@[j],
                    #[trigger] snapshot.processes@[i],
                    profile.keep_alive@,
                    self_pid,
                    os,
                );
        } else {
            assert(steps[k] == ms[k - n3]);
        }
    }
    assert(ps.len() <= 1 && ms.len() <= 1);
    assert forall|a: int, b: int| 0 <= a < b < steps.len() implies !(steps[a] is SetPerformancePower && steps[b] is SetPerformancePower) by {
        if steps[b] is SetPerformancePower {
            assert(step_rank(steps[b]) == 0);
            assert(b < n1);
        }
    }
    assert forall|a: int, b: int| 0 <= a < b < steps.len() implies !(steps[a] is PurgeMemory && steps[b] is PurgeMemory) by {
        if steps[a] is PurgeMemory {
            assert(step_rank(steps[a]) == 3);
            assert(n3 <= a);
        }
    }
    assert forall|k: int| 0 <= k < steps.len() && (#[trigger] steps[k]) is StopService implies stops_running(steps[k], profile, snapshot, caps) by {
        assert(n1 <= k < n2);
        assert(steps[k] == ss[k - n1]);
    }
    assert forall|k: int| 0 <= k < steps.len() && step_rank(#[trigger] steps[k]) == 2 implies justified(steps[k], profile, snapshot, self_pid, os) by {
        assert(n2 <= k < n3);
        assert(steps[k] == qs[k - n2]);
        let (j, i) = choose|j: int, i: int|
            0 <= j < profile.processes@.len() && 0 <= i < snapshot.processes@.len() && parks_for(
                #[trigger] qs[k - n2],
                #[trigger] profile.processes@[j],
                #[trigger] snapshot.processes@[i],
                profile.keep_alive@,
                self_pid,
                os,
            );
    }
    assert forall|a: int, b: int| 0 <= a < b < steps.len() && step_rank(steps[a]) == 2 && step_rank(steps[b]) == 2 implies step_pid(steps[a]) != step_pid(steps[b]) by {
        assert(n2 <= a < n3);
        assert(n2 <= b < n3);
        assert(step_pids(qs)[a - n2] == step_pid(qs[a - n2]));
        assert(step_pids(qs)[b - n2] == step_pid(qs[b - n2]));
    }
}


/// The plan switches the power plan only when the profile asks for the
/// performance plan and the platform can switch plans, and then first of
/// all; when the profile asks for it and the platform cannot, no switch is
/// planned and the power plan is reported as skipped, not available.
pub proof fn lemma_power_switch_only_when_possible(profile: Profile, snapshot: Snapshot, self_pid: u32, os: Os, caps: Capabilities)
    ensures
        ({
            let (steps, skipped) = planned(profile, snapshot, self_pid, os, caps);
            &&& (exists|k: int| 0 <= k < steps.len() && #[trigger] steps[k] is SetPerformancePower)
                <==> (profile.power == PowerPolicy::Performance && caps.power)
            &&& (profile.power == PowerPolicy::Performance && caps.power) ==> steps[0] is SetPerformancePower
            &&& (profile.power == PowerPolicy::Performance && !caps.power) ==> skipped.contains((POWER_PLAN@, NOT_AVAILABLE@))
        }),
{
    let (ps, pk) = power_plan(profile, caps);
    let (ss, sk) = service_plan(profile.services@, snapshot.services@, caps);
    let (qs, qk, claimed) = process_plan(profile.processes@, profile.keep_alive@, snapshot.processes@, self_pid, os);
    let (ms, mk) = purge_plan(profile, caps);
    lemma_service_plan(profile.services@, snapshot.services@, caps);
    lemma_process_plan(profile.processes@, profile.keep_alive@, snapshot.processes@, self_pid, os);
    let (steps, skipped) = planned(profile, snapshot, self_pid, os, caps);
    assert(steps == ps + ss + qs + ms);
    assert(skipped == pk + sk + qk + mk);
    let n1 = ps.len() as int;
    let n2 = n1 + ss.len();
    let n3 = n2 + qs.len();
    assert forall|k: int| n1 <= k < steps.len() implies !(#[trigger] steps[k] is SetPerformancePower) by {
        if k < n2 {
            assert(steps[k] == ss[k - n1]);
            let j = choose|j: int| 0 <= j < profile.services@.len() && {
                let t = #[trigger] profile.services@[j];
                &&& t.enabled
                &&& caps.services
                &&& found_state(snapshot.services@, normalized(t.name@)) == Some(ServiceState::Running)
                &&& #[trigger] ss[k - n1] == StepView::StopService { name: t.name@ }
            };
        } else if k < n3 {
            assert(steps[k] == qs[k - n2]);
            let (j, i) = choose|j: int, i: int|
                0 <= j < profile.processes@.len() && 0 <= i < snapshot.processes@.len() && parks_for(
                    #[trigger] qs[k - n2],
                    #[trigger] profile.processes@[j],
                    #[trigger] snapshot.processes@[i],
                    profile.keep_alive@,
                    self_pid,
                    os,
                );
        } else {
            assert(steps[k] == ms[k - n3]);
        }
    }
    if profile.power == PowerPolicy::Performance && caps.power {
        assert(steps[0] == ps[0]);
    }
    if profile.power == PowerPolicy::Performance && !caps.power {
        assert(skipped[0] == (POWER_PLAN@, NOT_AVAILABLE@));
    }
}

} // verus!
