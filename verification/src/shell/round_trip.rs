//! What one click of Restore promises: a quiet run on the in-memory machine
//! followed by the restore of its journal puts every service, every
//! suspended process and the power plan back as they were.
//!
//! The machine's steps are stated as the fake platform carries them out
//! (the same transitions its operations are specified by), and the journal
//! as the engine records it.

use vstd::prelude::*;
use crate::journal::{lemma_restore_replays_in_reverse, is_relaunch, undo_of, undo_plan, DoneView, RestoreView};
use crate::plan::StepView;
use crate::platform::fake::{
    after_resume, after_service, after_suspend, fake_performance_plan, fake_wf, find_process, launched_as,
    lemma_service_state_at, lemma_without_members, service_state, with_service_state, without_pid, FakeView,
};
use crate::shell::engine::completed_view;
use crate::snapshot::{ProcessInfo, ServiceState};
use crate::text::lower;

verus! {

/// Whether the fake machine carries out `s`: it has a power plan to switch
/// from, the service, or the process with that PID and start time.
pub open spec fn fake_succeeds(f: FakeView, s: StepView) -> bool {
    match s {
        StepView::SetPerformancePower => f.power is Some,
        StepView::StopService { name } => service_state(f.services, lower(name)) is Some,
        StepView::SuspendProcess { pid, start_time, .. } => find_process(f.processes, pid, start_time, 0) is Some,
        StepView::CloseProcess { pid, start_time, .. } => find_process(f.processes, pid, start_time, 0) is Some,
        StepView::PurgeMemory => true,
    }
}

/// The fake machine after performing `s`; a step that fails changes
/// nothing.
pub open spec fn fake_after(f: FakeView, s: StepView) -> FakeView {
    if !fake_succeeds(f, s) {
        f
    } else {
        match s {
            StepView::SetPerformancePower => f.with_power(Some(fake_performance_plan())),
            StepView::StopService { name } => after_service(f, lower(name), ServiceState::Stopped),
            StepView::SuspendProcess { pid, .. } => after_suspend(f, pid),
            StepView::CloseProcess { pid, start_time, .. } => FakeView {
                processes: f.processes.remove(find_process(f.processes, pid, start_time, 0)->0),
                suspended: without_pid(f.suspended, pid),
                ..f
            },
            StepView::PurgeMemory => FakeView { purges: (f.purges + 1) as u32, ..f },
        }
    }
}

/// A quiet run of `steps` on the fake machine: the machine afterwards, and
/// the journal the engine keeps of the steps that succeeded.
pub open spec fn fake_quiet(f: FakeView, steps: Seq<StepView>) -> (FakeView, Seq<DoneView>)
    decreases steps.len(),
{
    if steps.len() == 0 {
        (f, Seq::empty())
    } else {
        let (g, done) = fake_quiet(f, steps.drop_last());
        let s = steps.last();
        if fake_succeeds(g, s) {
            (fake_after(g, s), done.push(completed_view(s, g.power)->0))
        } else {
            (g, done)
        }
    }
}

/// The fake machine after one undo step; one that fails changes nothing.
pub open spec fn fake_undo(f: FakeView, r: RestoreView) -> FakeView {
    match r {
        RestoreView::ResumeProcess { pid, start_time, .. } => if find_process(f.processes, pid, start_time, 0) is Some {
            after_resume(f, pid)
        } else {
            f
        },
        RestoreView::Relaunch { exe, args, cwd, .. } => match exe {
            Some(e) => FakeView {
                processes: f.processes.push(choose|p: ProcessInfo| launched_as(p, f.next_pid, e, args, cwd)),
                launched: f.launched.push(e),
                next_pid: (f.next_pid + 1) as u32,
                ..f
            },
            None => f,
        },
        RestoreView::StartService { name } => if service_state(f.services, lower(name)) is Some {
            after_service(f, lower(name), ServiceState::Running)
        } else {
            f
        },
        RestoreView::RestorePowerPlan { plan } => f.with_power(Some(plan)),
    }
}

/// The fake machine after the undo steps `rs`, in order.
pub open spec fn fake_restore(f: FakeView, rs: Seq<(int, RestoreView)>) -> FakeView
    decreases rs.len(),
{
    if rs.len() == 0 {
        f
    } else {
        fake_undo(fake_restore(f, rs.drop_last()), rs.last().1)
    }
}

pub open spec fn stops_key(d: DoneView, key: Seq<char>) -> bool {
    d matches DoneView::ServiceStopped { name } && lower(name) == key
}

pub open spec fn starts_key(r: RestoreView, key: Seq<char>) -> bool {
    r matches RestoreView::StartService { name } && lower(name) == key
}

pub open spec fn suspends(d: DoneView, x: u32, st: u64) -> bool {
    d matches DoneView::ProcessSuspended { pid, start_time, .. } && pid == x && start_time == st
}

pub open spec fn resumes(r: RestoreView, x: u32, st: u64) -> bool {
    r matches RestoreView::ResumeProcess { pid, start_time, .. } && pid == x && start_time == st
}

/// Every stop in `steps` is of a service that was running, or of one the
/// machine does not have.
pub open spec fn stops_running_services(f: FakeView, steps: Seq<StepView>) -> bool {
    forall|k: int| #![trigger steps[k]] 0 <= k < steps.len() ==> (steps[k] matches StepView::StopService { name }
        ==> (service_state(f.services, lower(name)) is Some ==> service_state(f.services, lower(name)) == Some(ServiceState::Running)))
}

proof fn lemma_find_range(ps: Seq<ProcessInfo>, x: u32, st: u64, a: int)
    requires
        0 <= a,
    ensures
        find_process(ps, x, st, a) matches Some(i) ==> a <= i < ps.len() && ps[i].pid == x && ps[i].start_time == st,
    decreases ps.len() - a,
{
    if a < ps.len() && !(ps[a].pid == x && ps[a].start_time == st) {
        lemma_find_range(ps, x, st, a + 1);
    }
}

proof fn lemma_find_exists(ps: Seq<ProcessInfo>, x: u32, st: u64, a: int, i: int)
    requires
        0 <= a <= i < ps.len(),
        ps[i].pid == x,
        ps[i].start_time == st,
    ensures
        find_process(ps, x, st, a) is Some,
    decreases i - a,
{
    if a < i && !(ps[a].pid == x && ps[a].start_time == st) {
        lemma_find_exists(ps, x, st, a + 1, i);
    }
}

/// A process that can be found stays findable when processes are added
/// after it.
proof fn lemma_find_prefix(ps: Seq<ProcessInfo>, qs: Seq<ProcessInfo>, x: u32, st: u64)
    requires
        ps.len() <= qs.len(),
        forall|p: int| 0 <= p < ps.len() ==> qs[p] == ps[p],
        find_process(ps, x, st, 0) is Some,
    ensures
        find_process(qs, x, st, 0) is Some,
{
    lemma_find_range(ps, x, st, 0);
    let i = find_process(ps, x, st, 0)->0;
    lemma_find_exists(qs, x, st, 0, i);
}

/// A process that can be found stays findable when another PID's process
/// is removed.
proof fn lemma_find_remove(ps: Seq<ProcessInfo>, c: int, x: u32, st: u64)
    requires
        0 <= c < ps.len(),
        ps[c].pid != x,
        find_process(ps, x, st, 0) is Some,
    ensures
        find_process(ps.remove(c), x, st, 0) is Some,
{
    lemma_find_range(ps, x, st, 0);
    let i = find_process(ps, x, st, 0)->0;
    let rs = ps.remove(c);
    if i < c {
        lemma_find_exists(rs, x, st, 0, i);
    } else {
        assert(rs[i - 1] == ps[i]);
        lemma_find_exists(rs, x, st, 0, i - 1);
    }
}

/// The services keep their keys and are unchanged unless a journaled step
/// stopped them, and then they were running.
pub open spec fn services_part(f: FakeView, g: FakeView, done: Seq<DoneView>) -> bool {
    &&& g.services.len() == f.services.len()
    &&& forall|i: int| #![trigger g.services[i]] 0 <= i < g.services.len() ==> g.services[i].0 == f.services[i].0
    &&& forall|i: int| #![trigger g.services[i]] 0 <= i < g.services.len() ==> (g.services[i].1 == f.services[i].1 || (
        f.services[i].1 == ServiceState::Running && exists|k: int| 0 <= k < done.len() && #[trigger] stops_key(done[k], f.services[i].0)))
}

/// Every journaled stop was of a running service.
pub open spec fn stops_part(f: FakeView, done: Seq<DoneView>) -> bool {
    forall|k: int| #![trigger done[k]] 0 <= k < done.len() ==> (done[k] matches DoneView::ServiceStopped { name }
        ==> service_state(f.services, lower(name)) == Some(ServiceState::Running))
}

/// Every suspended process has a journaled suspension and is still there.
pub open spec fn suspended_part(g: FakeView, done: Seq<DoneView>) -> bool {
    forall|x: u32| #[trigger] g.suspended.contains(x) ==> exists|k: int, st: u64| 0 <= k < done.len() && #[trigger] suspends(done[k], x, st)
        && find_process(g.processes, x, st, 0) is Some
}

/// The power plan is unchanged unless a switch was journaled, and the
/// first switch journaled the original plan.
pub open spec fn power_part(f: FakeView, g: FakeView, done: Seq<DoneView>) -> bool {
    &&& (forall|k: int| 0 <= k < done.len() ==> !(#[trigger] done[k] is PowerPlanChanged)) ==> g.power == f.power
    &&& forall|k: int| #![trigger done[k]] 0 <= k < done.len() && done[k] is PowerPlanChanged && (forall|k2: int| 0 <= k2 < k ==> !(#[trigger] done[k2] is PowerPlanChanged))
        ==> f.power == Some(done[k]->previous)
}

/// What a quiet run has done so far, as far as putting it back needs.
pub open spec fn quiet_inv(f: FakeView, g: FakeView, done: Seq<DoneView>) -> bool {
    &&& services_part(f, g, done)
    &&& stops_part(f, done)
    &&& suspended_part(g, done)
    &&& power_part(f, g, done)
}

proof fn lemma_services_part_grows(f: FakeView, g: FakeView, done: Seq<DoneView>, d: DoneView)
    requires
        services_part(f, g, done),
    ensures
        services_part(f, g, done.push(d)),
{
    let done2 = done.push(d);
    assert forall|i: int| #![trigger g.services[i]] 0 <= i < g.services.len() implies (g.services[i].1 == f.services[i].1 || (
        f.services[i].1 == ServiceState::Running && exists|k: int| 0 <= k < done2.len() && #[trigger] stops_key(done2[k], f.services[i].0))) by {
        if g.services[i].1 != f.services[i].1 {
            let k = choose|k: int| 0 <= k < done.len() && #[trigger] stops_key(done[k], f.services[i].0);
            assert(done2[k] == done[k]);
        }
    }
}

proof fn lemma_stops_part_grows(f: FakeView, done: Seq<DoneView>, d: DoneView)
    requires
        stops_part(f, done),
        d matches DoneView::ServiceStopped { name } ==> service_state(f.services, lower(name)) == Some(ServiceState::Running),
    ensures
        stops_part(f, done.push(d)),
{
    let done2 = done.push(d);
    assert forall|k: int| #![trigger done2[k]] 0 <= k < done2.len() implies (done2[k] matches DoneView::ServiceStopped { name }
        ==> service_state(f.services, lower(name)) == Some(ServiceState::Running)) by {
        if k < done.len() {
            assert(done2[k] == done[k]);
        }
    }
}

proof fn lemma_suspended_part_grows(g: FakeView, done: Seq<DoneView>, d: DoneView)
    requires
        suspended_part(g, done),
    ensures
        suspended_part(g, done.push(d)),
{
    let done2 = done.push(d);
    assert forall|x: u32| #[trigger] g.suspended.contains(x) implies exists|k: int, st: u64| 0 <= k < done2.len() && #[trigger] suspends(done2[k], x, st)
        && find_process(g.processes, x, st, 0) is Some by {
        let (k, st) = choose|k: int, st: u64| 0 <= k < done.len() && #[trigger] suspends(done[k], x, st) && find_process(g.processes, x, st, 0) is Some;
        assert(done2[k] == done[k]);
    }
}

proof fn lemma_power_part_grows(f: FakeView, g: FakeView, done: Seq<DoneView>, d: DoneView)
    requires
        power_part(f, g, done),
        !(d is PowerPlanChanged),
    ensures
        power_part(f, g, done.push(d)),
{
    let done2 = done.push(d);
    if forall|k: int| 0 <= k < done2.len() ==> !(#[trigger] done2[k] is PowerPlanChanged) {
        assert forall|k: int| 0 <= k < done.len() implies !(#[trigger] done[k] is PowerPlanChanged) by {
            assert(done2[k] == done[k]);
        }
    }
    assert forall|k: int| #![trigger done2[k]] 0 <= k < done2.len() && done2[k] is PowerPlanChanged && (forall|k2: int| 0 <= k2 < k ==> !(#[trigger] done2[k2] is PowerPlanChanged))
        implies f.power == Some(done2[k]->previous) by {
        assert(k < done.len());
        assert(done2[k] == done[k]);
        assert forall|k2: int| 0 <= k2 < k implies !(#[trigger] done[k2] is PowerPlanChanged) by {
            assert(done2[k2] == done[k2]);
        }
    }
}

/// The stop of a service the machine has: its key was running, and the
/// entries with that key are stopped.
proof fn lemma_quiet_stop(f: FakeView, g: FakeView, done: Seq<DoneView>, name: Seq<char>)
    requires
        fake_wf(f),
        services_part(f, g, done),
        service_state(g.services, lower(name)) is Some,
        service_state(f.services, lower(name)) is Some ==> service_state(f.services, lower(name)) == Some(ServiceState::Running),
    ensures
        service_state(f.services, lower(name)) == Some(ServiceState::Running),
        services_part(f, after_service(g, lower(name), ServiceState::Stopped), done.push(DoneView::ServiceStopped { name })),
{
    let key = lower(name);
    let j = choose|j: int| 0 <= j < g.services.len() && g.services[j].0 == key;
    assert(g.services[j].0 == f.services[j].0);
    assert(service_state(f.services, key) is Some);
    let h = after_service(g, key, ServiceState::Stopped);
    let d = DoneView::ServiceStopped { name };
    let done2 = done.push(d);
    lemma_services_part_grows(f, g, done, d);
    assert(stops_key(done2[done.len() as int], key));
    assert forall|i: int| #![trigger h.services[i]] 0 <= i < h.services.len() implies (h.services[i].1 == f.services[i].1 || (
        f.services[i].1 == ServiceState::Running && exists|k: int| 0 <= k < done2.len() && #[trigger] stops_key(done2[k], f.services[i].0))) by {
        assert(h.services[i] == (if g.services[i].0 == key { (g.services[i].0, ServiceState::Stopped) } else { g.services[i] }));
        if g.services[i].0 == key {
            assert(g.services[i].0 == f.services[i].0);
            lemma_service_state_at(f.services, key, i);
        }
    }
    assert forall|i: int| #![trigger h.services[i]] 0 <= i < h.services.len() implies h.services[i].0 == f.services[i].0 by {
        assert(g.services[i].0 == f.services[i].0);
    }
}

proof fn lemma_quiet_inv(f: FakeView, steps: Seq<StepView>)
    requires
        fake_wf(f),
        f.suspended.len() == 0,
        stops_running_services(f, steps),
    ensures
        quiet_inv(f, fake_quiet(f, steps).0, fake_quiet(f, steps).1),
    decreases steps.len(),
{
    if steps.len() == 0 {
        assert forall|x: u32| #[trigger] f.suspended.contains(x) implies false by {}
        assert forall|i: int| #![trigger f.services[i]] 0 <= i < f.services.len() implies f.services[i].0 == f.services[i].0 by {}
    } else {
        let prefix = steps.drop_last();
        assert forall|k: int| #![trigger prefix[k]] 0 <= k < prefix.len() implies (prefix[k] matches StepView::StopService { name }
            ==> (service_state(f.services, lower(name)) is Some ==> service_state(f.services, lower(name)) == Some(ServiceState::Running))) by {
            assert(prefix[k] == steps[k]);
        }
        lemma_quiet_inv(f, prefix);
        let (g, done) = fake_quiet(f, prefix);
        let s = steps.last();
        assert(steps[steps.len() - 1] == s);
        if fake_succeeds(g, s) {
            let h = fake_after(g, s);
            let d = completed_view(s, g.power)->0;
            let done2 = done.push(d);
            assert(fake_quiet(f, steps) == (h, done2));
            match s {
                StepView::SetPerformancePower => {
                    lemma_services_part_grows(f, g, done, d);
                    lemma_stops_part_grows(f, done, d);
                    lemma_suspended_part_grows(g, done, d);
                    assert forall|k: int| #![trigger done2[k]] 0 <= k < done2.len() && done2[k] is PowerPlanChanged && (forall|k2: int| 0 <= k2 < k ==> !(#[trigger] done2[k2] is PowerPlanChanged))
                        implies f.power == Some(done2[k]->previous) by {
                        if k == done.len() {
                            assert forall|k2: int| 0 <= k2 < done.len() implies !(#[trigger] done[k2] is PowerPlanChanged) by {
                                assert(done2[k2] == done[k2]);
                            }
                        } else {
                            assert(done2[k] == done[k]);
                            assert forall|k2: int| 0 <= k2 < k implies !(#[trigger] done[k2] is PowerPlanChanged) by {
                                assert(done2[k2] == done[k2]);
                            }
                        }
                    }
                    assert(done2[done.len() as int] is PowerPlanChanged);
                },
                StepView::StopService { name } => {
                    lemma_quiet_stop(f, g, done, name);
                    lemma_stops_part_grows(f, done, d);
                    lemma_suspended_part_grows(g, done, d);
                    lemma_power_part_grows(f, g, done, d);
                },
                StepView::SuspendProcess { pid, name, start_time } => {
                    lemma_services_part_grows(f, g, done, d);
                    lemma_stops_part_grows(f, done, d);
                    lemma_power_part_grows(f, g, done, d);
                    assert forall|x: u32| #[trigger] h.suspended.contains(x) implies exists|k: int, st: u64| 0 <= k < done2.len() && #[trigger] suspends(done2[k], x, st)
                        && find_process(h.processes, x, st, 0) is Some by {
                        if x == pid {
                            assert(suspends(done2[done.len() as int], x, start_time));
                        } else {
                            if !g.suspended.contains(pid) {
                                assert(h.suspended == g.suspended.push(pid));
                                let i = choose|i: int| 0 <= i < h.suspended.len() && h.suspended[i] == x;
                                assert(g.suspended[i] == x);
                            }
                            assert(g.suspended.contains(x));
                            let (k, st) = choose|k: int, st: u64| 0 <= k < done.len() && #[trigger] suspends(done[k], x, st) && find_process(g.processes, x, st, 0) is Some;
                            assert(done2[k] == done[k]);
                        }
                    }
                },
                StepView::CloseProcess { pid, name, exe, args, cwd, start_time } => {
                    lemma_services_part_grows(f, g, done, d);
                    lemma_stops_part_grows(f, done, d);
                    lemma_power_part_grows(f, g, done, d);
                    let c = find_process(g.processes, pid, start_time, 0)->0;
                    lemma_find_range(g.processes, pid, start_time, 0);
                    assert forall|x: u32| #[trigger] h.suspended.contains(x) implies exists|k: int, st: u64| 0 <= k < done2.len() && #[trigger] suspends(done2[k], x, st)
                        && find_process(h.processes, x, st, 0) is Some by {
                        lemma_without_members(g.suspended, pid, x);
                        assert(g.suspended.contains(x));
                        let (k, st) = choose|k: int, st: u64| 0 <= k < done.len() && #[trigger] suspends(done[k], x, st) && find_process(g.processes, x, st, 0) is Some;
                        assert(done2[k] == done[k]);
                        lemma_find_remove(g.processes, c, x, st);
                    }
                },
                StepView::PurgeMemory => {
                    lemma_services_part_grows(f, g, done, d);
                    lemma_stops_part_grows(f, done, d);
                    lemma_suspended_part_grows(g, done, d);
                    lemma_power_part_grows(f, g, done, d);
                },
            }
        } else {
            assert(fake_quiet(f, steps) == (g, done));
        }
    }
}

/// The services keep their keys and, once the undo steps `us[..j]` have
/// run, are as they were unless a later step still starts them.
pub open spec fn restore_services(f: FakeView, us: Seq<(int, RestoreView)>, j: int, h: FakeView) -> bool {
    &&& h.services.len() == f.services.len()
    &&& forall|i: int| #![trigger h.services[i]] 0 <= i < h.services.len() ==> h.services[i].0 == f.services[i].0
    &&& forall|i: int| #![trigger h.services[i]] 0 <= i < h.services.len() ==> (h.services[i].1 == f.services[i].1 || (
        f.services[i].1 == ServiceState::Running && exists|m: int| j <= m < us.len() && #[trigger] starts_key(us[m].1, f.services[i].0)))
}

/// The process table after the quiet run is still there, at its start.
pub open spec fn restore_procs(g: FakeView, h: FakeView) -> bool {
    &&& h.processes.len() >= g.processes.len()
    &&& forall|p: int| 0 <= p < g.processes.len() ==> #[trigger] h.processes[p] == g.processes[p]
}

/// A process still suspended was suspended after the quiet run, and no
/// undo step so far resumed it while it was there.
pub open spec fn restore_susp(g: FakeView, us: Seq<(int, RestoreView)>, j: int, h: FakeView) -> bool {
    forall|x: u32| #[trigger] h.suspended.contains(x) ==> g.suspended.contains(x) && forall|m: int, st: u64| 0 <= m < j && #[trigger] resumes(us[m].1, x, st)
        ==> find_process(g.processes, x, st, 0) is None
}

/// The power plan is the last one restored so far, or as the quiet run
/// left it.
pub open spec fn restore_power(g: FakeView, us: Seq<(int, RestoreView)>, j: int, h: FakeView) -> bool {
    &&& (forall|m: int| 0 <= m < j ==> !(#[trigger] us[m].1 is RestorePowerPlan)) ==> h.power == g.power
    &&& forall|m: int| #![trigger us[m]] 0 <= m < j && us[m].1 is RestorePowerPlan && (forall|m2: int| m < m2 < j ==> !(#[trigger] us[m2].1 is RestorePowerPlan))
        ==> h.power == Some(us[m].1->plan)
}

/// Each undo step undoes a journal entry.
pub open spec fn undoes(done: Seq<DoneView>, us: Seq<(int, RestoreView)>) -> bool {
    forall|m: int| #![trigger us[m]] 0 <= m < us.len() ==> 0 <= us[m].0 < done.len() && undo_of(done[us[m].0]) == Some(us[m].1)
}

proof fn lemma_undo_services(f: FakeView, done: Seq<DoneView>, us: Seq<(int, RestoreView)>, j: int, h: FakeView)
    requires
        fake_wf(f),
        stops_part(f, done),
        undoes(done, us),
        0 < j <= us.len(),
        restore_services(f, us, j - 1, h),
    ensures
        restore_services(f, us, j, fake_undo(h, us[j - 1].1)),
{
    let r = us[j - 1].1;
    let h2 = fake_undo(h, r);
    let idx = us[j - 1].0;
    assert(undo_of(done[idx]) == Some(r));
    if let RestoreView::StartService { name } = r {
        let key = lower(name);
        assert(done[idx] == DoneView::ServiceStopped { name });
        assert(service_state(f.services, key) == Some(ServiceState::Running));
        assert forall|i: int| #![trigger h2.services[i]] 0 <= i < h2.services.len() implies (h2.services[i].1 == f.services[i].1 || (
            f.services[i].1 == ServiceState::Running && exists|m: int| j <= m < us.len() && #[trigger] starts_key(us[m].1, f.services[i].0))) by {
            assert(h.services[i].0 == f.services[i].0);
            if h.services[i].0 == key {
                lemma_service_state_at(f.services, key, i);
                assert(service_state(h.services, key) is Some);
                assert(h2.services[i] == (key, ServiceState::Running));
            } else {
                assert(h2.services[i] == h.services[i]);
                if h.services[i].1 != f.services[i].1 {
                    let m = choose|m: int| j - 1 <= m < us.len() && #[trigger] starts_key(us[m].1, f.services[i].0);
                    assert(m != j - 1);
                }
            }
        }
        assert forall|i: int| #![trigger h2.services[i]] 0 <= i < h2.services.len() implies h2.services[i].0 == f.services[i].0 by {
            assert(h.services[i].0 == f.services[i].0);
        }
    } else {
        assert(h2.services == h.services);
        assert forall|i: int| #![trigger h2.services[i]] 0 <= i < h2.services.len() implies (h2.services[i].1 == f.services[i].1 || (
            f.services[i].1 == ServiceState::Running && exists|m: int| j <= m < us.len() && #[trigger] starts_key(us[m].1, f.services[i].0))) by {
            if h.services[i].1 != f.services[i].1 {
                let m = choose|m: int| j - 1 <= m < us.len() && #[trigger] starts_key(us[m].1, f.services[i].0);
                assert(m != j - 1);
            }
        }
    }
}

proof fn lemma_undo_procs(g: FakeView, h: FakeView, r: RestoreView)
    requires
        restore_procs(g, h),
    ensures
        restore_procs(g, fake_undo(h, r)),
{
    let h2 = fake_undo(h, r);
    assert forall|p: int| 0 <= p < g.processes.len() implies #[trigger] h2.processes[p] == g.processes[p] by {
        assert(h.processes[p] == g.processes[p]);
    }
}

proof fn lemma_undo_susp(g: FakeView, us: Seq<(int, RestoreView)>, j: int, h: FakeView)
    requires
        0 < j <= us.len(),
        restore_procs(g, h),
        restore_susp(g, us, j - 1, h),
    ensures
        restore_susp(g, us, j, fake_undo(h, us[j - 1].1)),
{
    let r = us[j - 1].1;
    let h2 = fake_undo(h, r);
    assert forall|x: u32| #[trigger] h2.suspended.contains(x) implies g.suspended.contains(x) && forall|m: int, st: u64|
        0 <= m < j && #[trigger] resumes(us[m].1, x, st) ==> find_process(g.processes, x, st, 0) is None by {
        if let RestoreView::ResumeProcess { pid, start_time, .. } = r {
            if find_process(h.processes, pid, start_time, 0) is Some {
                lemma_without_members(h.suspended, pid, x);
            }
        }
        assert(h.suspended.contains(x));
        assert forall|m: int, st: u64| 0 <= m < j && #[trigger] resumes(us[m].1, x, st) implies find_process(g.processes, x, st, 0) is None by {
            if m == j - 1 {
                if let RestoreView::ResumeProcess { pid, start_time, .. } = r {
                    if find_process(g.processes, x, st, 0) is Some {
                        lemma_find_prefix(g.processes, h.processes, x, st);
                        lemma_without_members(h.suspended, pid, x);
                    }
                }
            }
        }
    }
}

proof fn lemma_undo_power(g: FakeView, us: Seq<(int, RestoreView)>, j: int, h: FakeView)
    requires
        0 < j <= us.len(),
        restore_power(g, us, j - 1, h),
    ensures
        restore_power(g, us, j, fake_undo(h, us[j - 1].1)),
{
    let r = us[j - 1].1;
    let h2 = fake_undo(h, r);
    assert forall|m: int| #![trigger us[m]] 0 <= m < j && us[m].1 is RestorePowerPlan && (forall|m2: int| m < m2 < j ==> !(#[trigger] us[m2].1 is RestorePowerPlan))
        implies h2.power == Some(us[m].1->plan) by {
        if m < j - 1 {
            assert(!(us[j - 1].1 is RestorePowerPlan));
            assert forall|m2: int| m < m2 < j - 1 implies !(#[trigger] us[m2].1 is RestorePowerPlan) by {}
        }
    }
    if forall|m: int| 0 <= m < j ==> !(#[trigger] us[m].1 is RestorePowerPlan) {
        assert(!(us[j - 1].1 is RestorePowerPlan));
    }
}

proof fn lemma_restore_inv(f: FakeView, g: FakeView, done: Seq<DoneView>, us: Seq<(int, RestoreView)>, j: int)
    requires
        fake_wf(f),
        stops_part(f, done),
        undoes(done, us),
        restore_services(f, us, 0, g),
        0 <= j <= us.len(),
    ensures
        restore_services(f, us, j, fake_restore(g, us.take(j))),
        restore_procs(g, fake_restore(g, us.take(j))),
        restore_susp(g, us, j, fake_restore(g, us.take(j))),
        restore_power(g, us, j, fake_restore(g, us.take(j))),
    decreases j,
{
    if j == 0 {
        assert(us.take(0) =~= Seq::<(int, RestoreView)>::empty());
    } else {
        lemma_restore_inv(f, g, done, us, j - 1);
        let h = fake_restore(g, us.take(j - 1));
        assert(us.take(j).drop_last() =~= us.take(j - 1));
        assert(us.take(j).last() == us[j - 1]);
        assert(fake_restore(g, us.take(j)) == fake_undo(h, us[j - 1].1));
        lemma_undo_services(f, done, us, j, h);
        lemma_undo_procs(g, h, us[j - 1].1);
        lemma_undo_susp(g, us, j, h);
        lemma_undo_power(g, us, j, h);
    }
}

/// The first journaled power switch among `done[..n]`.
proof fn first_power(done: Seq<DoneView>, n: int) -> (k: int)
    requires
        0 <= n <= done.len(),
        exists|k: int| 0 <= k < n && #[trigger] done[k] is PowerPlanChanged,
    ensures
        0 <= k < n,
        done[k] is PowerPlanChanged,
        forall|k2: int| 0 <= k2 < k ==> !(#[trigger] done[k2] is PowerPlanChanged),
    decreases n,
{
    if exists|k: int| 0 <= k < n - 1 && #[trigger] done[k] is PowerPlanChanged {
        first_power(done, n - 1)
    } else {
        n - 1
    }
}

/// Every stop that was journaled is undone by a start.
proof fn lemma_restore_starts(f: FakeView, g: FakeView, done: Seq<DoneView>, us: Seq<(int, RestoreView)>)
    requires
        services_part(f, g, done),
        undoes(done, us),
        forall|i: int| 0 <= i < done.len() && undo_of(done[i]) is Some && !is_relaunch(undo_of(done[i])->0) ==> exists|m: int|
            0 <= m < us.len() && (#[trigger] us[m]).0 == i,
    ensures
        restore_services(f, us, 0, g),
{
    assert forall|i: int| #![trigger g.services[i]] 0 <= i < g.services.len() implies (g.services[i].1 == f.services[i].1 || (
        f.services[i].1 == ServiceState::Running && exists|m: int| 0 <= m < us.len() && #[trigger] starts_key(us[m].1, f.services[i].0))) by {
        if g.services[i].1 != f.services[i].1 {
            let k = choose|k: int| 0 <= k < done.len() && #[trigger] stops_key(done[k], f.services[i].0);
            let m = choose|m: int| 0 <= m < us.len() && (#[trigger] us[m]).0 == k;
            assert(starts_key(us[m].1, f.services[i].0));
        }
    }
}

proof fn lemma_final_suspended(g: FakeView, done: Seq<DoneView>, us: Seq<(int, RestoreView)>, h: FakeView)
    requires
        suspended_part(g, done),
        undoes(done, us),
        forall|i: int| 0 <= i < done.len() && undo_of(done[i]) is Some && !is_relaunch(undo_of(done[i])->0) ==> exists|m: int|
            0 <= m < us.len() && (#[trigger] us[m]).0 == i,
        restore_susp(g, us, us.len() as int, h),
    ensures
        h.suspended.len() == 0,
{
    if h.suspended.len() > 0 {
        let x = h.suspended[0];
        assert(h.suspended.contains(x));
        assert(g.suspended.contains(x));
        let (k, st) = choose|k: int, st: u64| 0 <= k < done.len() && #[trigger] suspends(done[k], x, st) && find_process(g.processes, x, st, 0) is Some;
        let m = choose|m: int| 0 <= m < us.len() && (#[trigger] us[m]).0 == k;
        assert(resumes(us[m].1, x, st));
    }
}

/// Some undo step replays the journal entry at `i`.
spec fn replays(us: Seq<(int, RestoreView)>, i: int) -> bool {
    exists|m: int| 0 <= m < us.len() && (#[trigger] us[m]).0 == i
}

proof fn lemma_final_power(f: FakeView, g: FakeView, done: Seq<DoneView>, us: Seq<(int, RestoreView)>, h: FakeView)
    requires
        power_part(f, g, done),
        undoes(done, us),
        forall|a: int, b: int| 0 <= a < b < us.len() ==> us[a].0 > us[b].0,
        forall|i: int| 0 <= i < done.len() && undo_of(done[i]) is Some && !is_relaunch(undo_of(done[i])->0) ==> #[trigger] replays(us, i),
        restore_power(g, us, us.len() as int, h),
    ensures
        h.power == f.power,
{
    if exists|k: int| 0 <= k < done.len() && #[trigger] done[k] is PowerPlanChanged {
        let k0 = first_power(done, done.len() as int);
        let d0 = done[k0];
        assert(f.power == Some(d0->previous));
        assert(undo_of(d0) == Some(RestoreView::RestorePowerPlan { plan: d0->previous }));
        assert(!is_relaunch(undo_of(d0)->0));
        assert(replays(us, k0));
        let m0 = choose|m: int| 0 <= m < us.len() && (#[trigger] us[m]).0 == k0;
        assert(undo_of(done[us[m0].0]) == Some(us[m0].1));
        assert(us[m0].1 == RestoreView::RestorePowerPlan { plan: d0->previous });
        assert forall|m2: int| m0 < m2 < us.len() implies !(#[trigger] us[m2].1 is RestorePowerPlan) by {
            assert(us[m2].0 < us[m0].0);
            assert(undo_of(done[us[m2].0]) == Some(us[m2].1));
            if us[m2].1 is RestorePowerPlan {
                assert(done[us[m2].0] is PowerPlanChanged);
            }
        }
        assert(h.power == Some(us[m0].1->plan));
    } else {
        assert forall|m: int| 0 <= m < us.len() implies !(#[trigger] us[m].1 is RestorePowerPlan) by {
            if us[m].1 is RestorePowerPlan {
                assert(done[us[m].0] is PowerPlanChanged);
            }
        }
    }
}

/// A quiet run on the in-memory machine followed by the restore of its
/// journal puts the machine back: every service is in the state it was in,
/// nothing is left suspended, and the power plan is the one that was active.
/// This holds for any steps that stop only running services (or ones the
/// machine does not have), starting from a machine with nothing suspended;
/// steps that fail are not journaled and change nothing. Closed programs are
/// relaunched under new process ids, so the process table itself is not
/// claimed.
pub proof fn lemma_quiet_then_restore(f: FakeView, steps: Seq<StepView>)
    requires
        fake_wf(f),
        f.suspended.len() == 0,
        stops_running_services(f, steps),
    ensures
        ({
            let (g, done) = fake_quiet(f, steps);
            let h = fake_restore(g, undo_plan(done, 0).0);
            &&& h.services == f.services
            &&& h.suspended.len() == 0
            &&& h.power == f.power
        }),
{
    lemma_quiet_inv(f, steps);
    let (g, done) = fake_quiet(f, steps);
    let us = undo_plan(done, 0).0;
    lemma_restore_replays_in_reverse(done);
    assert(undoes(done, us));
    lemma_restore_starts(f, g, done, us);
    lemma_restore_inv(f, g, done, us, us.len() as int);
    assert(us.take(us.len() as int) =~= us);
    let h = fake_restore(g, us);
    assert forall|i: int| 0 <= i < h.services.len() implies h.services[i] == f.services[i] by {
        assert(h.services[i].0 == f.services[i].0);
    }
    assert(h.services =~= f.services);
    lemma_final_suspended(g, done, us, h);
    assert forall|i: int| 0 <= i < done.len() && undo_of(done[i]) is Some && !is_relaunch(undo_of(done[i])->0) implies #[trigger] replays(us, i) by {
        let k = choose|k: int| 0 <= k < us.len() && (#[trigger] us[k]).0 == i;
    }
    lemma_final_power(f, g, done, us, h);
}

} // verus!
