//! The undo journal: every step that actually happened, written to disk
//! before the next one starts, so a crash, a reboot or a closed laptop lid
//! cannot lose the list of things to put back.
//!
//! Restore replays the journal in reverse. If a restore step fails the entry
//! stays in the journal so the user can retry; only a fully restored journal
//! is deleted.

use vstd::prelude::*;
use std::collections::HashSet;
use crate::error::CoreError;
use crate::plan::{copy_opt, copy_string, copy_strings, pid_label, strings_view};
use crate::snapshot::{opt_view, PowerPlan};
use crate::text::{decimal, push_decimal};

verus! {

broadcast use vstd::std_specs::hash::group_hash_axioms;

pub const JOURNAL_FILE: &'static str = "journal.json";
pub const CURRENT_VERSION: u32 = 1;

#[derive(Debug, Clone, PartialEq, Eq)]
pub enum DoneStep {
    PowerPlanChanged { previous: PowerPlan },
    ServiceStopped { name: String },
    ProcessSuspended { pid: u32, name: String, start_time: u64 },
    ProcessClosed { name: String, exe: Option<String>, args: Vec<String>, cwd: Option<String> },
    MemoryPurged,
}

#[derive(Debug, Clone, PartialEq, Eq)]
pub enum RestoreStep {
    ResumeProcess { pid: u32, name: String, start_time: u64 },
    Relaunch { name: String, exe: Option<String>, args: Vec<String>, cwd: Option<String> },
    StartService { name: String },
    RestorePowerPlan { plan: PowerPlan },
}

/// A journal entry as plain values.
pub enum DoneView {
    PowerPlanChanged { previous: (Seq<char>, Seq<char>) },
    ServiceStopped { name: Seq<char> },
    ProcessSuspended { pid: u32, name: Seq<char>, start_time: u64 },
    ProcessClosed { name: Seq<char>, exe: Option<Seq<char>>, args: Seq<Seq<char>>, cwd: Option<Seq<char>> },
    MemoryPurged,
}

/// An undo step as plain values.
pub enum RestoreView {
    ResumeProcess { pid: u32, name: Seq<char>, start_time: u64 },
    Relaunch { name: Seq<char>, exe: Option<Seq<char>>, args: Seq<Seq<char>>, cwd: Option<Seq<char>> },
    StartService { name: Seq<char> },
    RestorePowerPlan { plan: (Seq<char>, Seq<char>) },
}

impl View for DoneStep {
    type V = DoneView;

    open spec fn view(&self) -> DoneView {
        match self {
            DoneStep::PowerPlanChanged { previous } => DoneView::PowerPlanChanged { previous: previous@ },
            DoneStep::ServiceStopped { name } => DoneView::ServiceStopped { name: name@ },
            DoneStep::ProcessSuspended { pid, name, start_time } => DoneView::ProcessSuspended {
                pid: *pid,
                name: name@,
                start_time: *start_time,
            },
            DoneStep::ProcessClosed { name, exe, args, cwd } => DoneView::ProcessClosed {
                name: name@,
                exe: opt_view(*exe),
                args: strings_view(args@),
                cwd: opt_view(*cwd),
            },
            DoneStep::MemoryPurged => DoneView::MemoryPurged,
        }
    }
}

impl View for RestoreStep {
    type V = RestoreView;

    open spec fn view(&self) -> RestoreView {
        match self {
            RestoreStep::ResumeProcess { pid, name, start_time } => RestoreView::ResumeProcess {
                pid: *pid,
                name: name@,
                start_time: *start_time,
            },
            RestoreStep::Relaunch { name, exe, args, cwd } => RestoreView::Relaunch {
                name: name@,
                exe: opt_view(*exe),
                args: strings_view(args@),
                cwd: opt_view(*cwd),
            },
            RestoreStep::StartService { name } => RestoreView::StartService { name: name@ },
            RestoreStep::RestorePowerPlan { plan } => RestoreView::RestorePowerPlan { plan: plan@ },
        }
    }
}

pub open spec fn done_views(v: Seq<DoneStep>) -> Seq<DoneView> {
    v.map_values(|d: DoneStep| d@)
}

/// The step that undoes an entry, if any.
pub open spec fn undo_of(d: DoneView) -> Option<RestoreView> {
    match d {
        DoneView::PowerPlanChanged { previous } => Some(RestoreView::RestorePowerPlan { plan: previous }),
        DoneView::ServiceStopped { name } => Some(RestoreView::StartService { name }),
        DoneView::ProcessSuspended { pid, name, start_time } => Some(RestoreView::ResumeProcess { pid, name, start_time }),
        DoneView::ProcessClosed { name, exe, args, cwd } => Some(RestoreView::Relaunch { name, exe, args, cwd }),
        DoneView::MemoryPurged => None,
    }
}

/// The progress label of an undo step.
pub open spec fn restore_label(r: RestoreView) -> Seq<char> {
    match r {
        RestoreView::ResumeProcess { pid, name, .. } => "Resume "@ + name + " (PID "@ + decimal(pid as nat) + ")"@,
        RestoreView::Relaunch { name, .. } => "Relaunch "@ + name,
        RestoreView::StartService { name } => "Start service "@ + name,
        RestoreView::RestorePowerPlan { plan } => "Restore the "@ + plan.1 + " power plan"@,
    }
}

impl RestoreStep {
    pub fn label(&self) -> (r: String)
        ensures
            r@ == restore_label(self@),
    {
        match self {
            RestoreStep::ResumeProcess { name, pid, .. } => pid_label("Resume ", name, *pid),
            RestoreStep::Relaunch { name, .. } => {
                let mut r = String::from_str("Relaunch ");
                r.append(name.as_str());
                r
            },
            RestoreStep::StartService { name } => {
                let mut r = String::from_str("Start service ");
                r.append(name.as_str());
                r
            },
            RestoreStep::RestorePowerPlan { plan } => {
                let mut r = String::from_str("Restore the ");
                r.append(plan.name.as_str());
                r.append(" power plan");
                r
            },
        }
    }
}

impl DoneStep {
    /// The step that undoes this one, if any.
    pub fn restore(&self) -> (r: Option<RestoreStep>)
        ensures
            match r {
                Some(x) => undo_of(self@) == Some(x@),
                None => undo_of(self@) is None,
            },
    {
        match self {
            DoneStep::PowerPlanChanged { previous } => Some(RestoreStep::RestorePowerPlan { plan: previous.copy() }),
            DoneStep::ServiceStopped { name } => Some(RestoreStep::StartService { name: copy_string(name) }),
            DoneStep::ProcessSuspended { pid, name, start_time } => Some(
                RestoreStep::ResumeProcess { pid: *pid, name: copy_string(name), start_time: *start_time },
            ),
            DoneStep::ProcessClosed { name, exe, args, cwd } => Some(
                RestoreStep::Relaunch {
                    name: copy_string(name),
                    exe: copy_opt(exe),
                    args: copy_strings(args),
                    cwd: copy_opt(cwd),
                },
            ),
            DoneStep::MemoryPurged => None,
        }
    }

    /// An entry with the same contents.
    pub fn copy(&self) -> (r: DoneStep)
        ensures
            r@ == self@,
    {
        match self {
            DoneStep::PowerPlanChanged { previous } => DoneStep::PowerPlanChanged { previous: previous.copy() },
            DoneStep::ServiceStopped { name } => DoneStep::ServiceStopped { name: copy_string(name) },
            DoneStep::ProcessSuspended { pid, name, start_time } => DoneStep::ProcessSuspended {
                pid: *pid,
                name: copy_string(name),
                start_time: *start_time,
            },
            DoneStep::ProcessClosed { name, exe, args, cwd } => DoneStep::ProcessClosed {
                name: copy_string(name),
                exe: copy_opt(exe),
                args: copy_strings(args),
                cwd: copy_opt(cwd),
            },
            DoneStep::MemoryPurged => DoneStep::MemoryPurged,
        }
    }
}


#[derive(Debug, Clone, PartialEq, Eq, Default)]
pub struct Summary {
    pub services_stopped: usize,
    pub processes_suspended: usize,
    pub processes_closed: usize,
    pub power_changed: bool,
    pub memory_purged: bool,
}

#[derive(Debug, Clone, PartialEq, Eq)]
pub struct Journal {
    pub version: u32,
    /// Seconds since the epoch when Quiet Mode was switched on.
    pub started_at: u64,
    pub done: Vec<DoneStep>,
}

/// What identifies a relaunch: the executable when it was recorded (a
/// program is relaunched once per executable, whatever arguments its closed
/// instances had), else the arguments.
pub open spec fn relaunch_key(r: RestoreView) -> (Option<Seq<char>>, Seq<Seq<char>>) {
    match r {
        RestoreView::Relaunch { exe, args, .. } => match exe {
            Some(e) => (Some(e), Seq::empty()),
            None => (None, args),
        },
        _ => (None, Seq::empty()),
    }
}

/// A relaunch: restoring does one per relaunch key.
pub open spec fn is_relaunch(r: RestoreView) -> bool {
    r is Relaunch
}

/// The undo steps for the entries `done[m..]`, newest first, and the
/// relaunch keys already used. A program closed several times is relaunched
/// once per key, for its newest entry.
pub open spec fn undo_plan(done: Seq<DoneView>, m: int) -> (Seq<(int, RestoreView)>, Seq<(Option<Seq<char>>, Seq<Seq<char>>)>)
    decreases done.len() - m,
{
    if m >= done.len() || m < 0 {
        (Seq::empty(), Seq::empty())
    } else {
        let (steps, seen) = undo_plan(done, m + 1);
        match undo_of(done[m]) {
            None => (steps, seen),
            Some(r) => if is_relaunch(r) {
                if seen.contains(relaunch_key(r)) {
                    (steps, seen)
                } else {
                    (steps.push((m, r)), seen.push(relaunch_key(r)))
                }
            } else {
                (steps.push((m, r)), seen)
            },
        }
    }
}

/// The entries of `done[..n]` kept after a restore: those whose undo failed
/// (their index is in `failed`) and that have an undo at all.
pub open spec fn retained(done: Seq<DoneView>, failed: Set<usize>, n: int) -> Seq<DoneView>
    decreases n,
{
    if n <= 0 {
        Seq::empty()
    } else {
        let r = retained(done, failed, n - 1);
        if failed.contains((n - 1) as usize) && undo_of(done[n - 1]) is Some {
            r.push(done[n - 1])
        } else {
            r
        }
    }
}

/// Whether `s` counts the entries of `done`.
pub open spec fn summarizes(s: Summary, done: Seq<DoneView>) -> bool {
    &&& s.services_stopped == count_of(done, |d: DoneView| is_service_stop(d))
    &&& s.processes_suspended == count_of(done, |d: DoneView| is_suspension(d))
    &&& s.processes_closed == count_of(done, |d: DoneView| is_closure(d))
    &&& s.power_changed == any_of(done, |d: DoneView| is_power_change(d))
    &&& s.memory_purged == any_of(done, |d: DoneView| is_purge(d))
}

/// How many entries satisfy `kind`.
pub open spec fn count_of(done: Seq<DoneView>, kind: spec_fn(DoneView) -> bool) -> nat
    decreases done.len(),
{
    if done.len() == 0 {
        0
    } else {
        count_of(done.drop_last(), kind) + if kind(done.last()) { 1nat } else { 0nat }
    }
}

pub open spec fn any_of(done: Seq<DoneView>, kind: spec_fn(DoneView) -> bool) -> bool {
    exists|i: int| 0 <= i < done.len() && kind(#[trigger] done[i])
}

pub open spec fn is_service_stop(d: DoneView) -> bool {
    d is ServiceStopped
}

pub open spec fn is_suspension(d: DoneView) -> bool {
    d is ProcessSuspended
}

pub open spec fn is_closure(d: DoneView) -> bool {
    d is ProcessClosed
}

pub open spec fn is_power_change(d: DoneView) -> bool {
    d is PowerPlanChanged
}

pub open spec fn is_purge(d: DoneView) -> bool {
    d is MemoryPurged
}

proof fn lemma_count_bound(done: Seq<DoneView>, kind: spec_fn(DoneView) -> bool)
    ensures
        count_of(done, kind) <= done.len(),
    decreases done.len(),
{
    if done.len() > 0 {
        lemma_count_bound(done.drop_last(), kind);
    }
}

/// Whether two optional strings are equal.
fn same_opt(a: &Option<String>, b: &Option<String>) -> (r: bool)
    ensures
        r == (opt_view(*a) == opt_view(*b)),
{
    match (a, b) {
        (Some(x), Some(y)) => *x == *y,
        (None, None) => true,
        _ => false,
    }
}

/// Whether two lists of strings are equal.
fn same_strings(a: &Vec<String>, b: &Vec<String>) -> (r: bool)
    ensures
        r == (strings_view(a@) == strings_view(b@)),
{
    if a.len() != b.len() {
        assert(strings_view(a@).len() != strings_view(b@).len());
        return false;
    }
    let mut i: usize = 0;
    while i < a.len()
        invariant
            a@.len() == b@.len(),
            i <= a@.len(),
            forall|k: int| 0 <= k < i ==> a@[k]@ == b@[k]@,
        decreases a.len() - i,
    {
        if a[i] != b[i] {
            assert(strings_view(a@)[i as int] != strings_view(b@)[i as int]);
            return false;
        }
        i = i + 1;
    }
    assert(strings_view(a@) =~= strings_view(b@));
    true
}

/// Whether `key` is among the keys in `seen`.
fn seen_key(seen: &Vec<(Option<String>, Vec<String>)>, key: &(Option<String>, Vec<String>)) -> (r: bool)
    ensures
        r == keys_view(seen@).contains(key_view(*key)),
{
    let mut i: usize = 0;
    while i < seen.len()
        invariant
            i <= seen@.len(),
            forall|k: int| 0 <= k < i ==> keys_view(seen@)[k] != key_view(*key),
        decreases seen.len() - i,
    {
        if same_opt(&seen[i].0, &key.0) && same_strings(&seen[i].1, &key.1) {
            assert(keys_view(seen@)[i as int] == key_view(*key));
            return true;
        }
        i = i + 1;
    }
    false
}

pub open spec fn key_view(k: (Option<String>, Vec<String>)) -> (Option<Seq<char>>, Seq<Seq<char>>) {
    (opt_view(k.0), strings_view(k.1@))
}

pub open spec fn keys_view(v: Seq<(Option<String>, Vec<String>)>) -> Seq<(Option<Seq<char>>, Seq<Seq<char>>)> {
    v.map_values(|k: (Option<String>, Vec<String>)| key_view(k))
}

pub open spec fn indexed_views(v: Seq<(usize, RestoreStep)>) -> Seq<(int, RestoreView)> {
    v.map_values(|e: (usize, RestoreStep)| (e.0 as int, e.1@))
}

proof fn lemma_undo_plan_facts(done: Seq<DoneView>, m: int)
    requires
        0 <= m <= done.len(),
    ensures
        ({
            let (steps, seen) = undo_plan(done, m);
            &&& forall|k: int| 0 <= k < steps.len() ==> m <= (#[trigger] steps[k]).0 < done.len() && undo_of(done[steps[k].0]) == Some(steps[k].1)
            &&& forall|a: int, b: int| 0 <= a < b < steps.len() ==> steps[a].0 > steps[b].0
            &&& forall|k: int| 0 <= k < steps.len() && is_relaunch((#[trigger] steps[k]).1) ==> seen.contains(relaunch_key(steps[k].1))
            &&& forall|x| #[trigger] seen.contains(x) ==> exists|k: int| 0 <= k < steps.len() && is_relaunch(steps[k].1) && relaunch_key(#[trigger] steps[k].1) == x
            &&& forall|a: int, b: int| 0 <= a < b < steps.len() && is_relaunch(steps[a].1) && is_relaunch(steps[b].1) ==> relaunch_key(steps[a].1) != relaunch_key(steps[b].1)
            &&& forall|i: int| m <= i < done.len() && undo_of(done[i]) is Some && !(is_relaunch(undo_of(done[i])->0)) ==> exists|k: int| 0 <= k < steps.len() && (#[trigger] steps[k]).0 == i
            &&& forall|i: int| m <= i < done.len() && undo_of(done[i]) is Some && is_relaunch(undo_of(done[i])->0) ==> #[trigger] seen.contains(relaunch_key(undo_of(done[i])->0))
            &&& forall|k: int, j: int| #![trigger steps[k], done[j]] 0 <= k < steps.len() && is_relaunch(steps[k].1) && steps[k].0 < j < done.len() && undo_of(done[j]) is Some && is_relaunch(undo_of(done[j])->0) ==> relaunch_key(undo_of(done[j])->0) != relaunch_key(steps[k].1)
        }),
    decreases done.len() - m,
{
    if m < done.len() {
        lemma_undo_plan_facts(done, m + 1);
        let (s0, seen0) = undo_plan(done, m + 1);
        let (steps, seen) = undo_plan(done, m);
        match undo_of(done[m]) {
            None => {},
            Some(r) => {
                if is_relaunch(r) {
                    if !seen0.contains(relaunch_key(r)) {
                        assert forall|x| #[trigger] seen.contains(x) implies exists|k: int| 0 <= k < steps.len() && is_relaunch(steps[k].1) && relaunch_key(#[trigger] steps[k].1) == x by {
                            if x == relaunch_key(r) {
                                assert(steps[steps.len() - 1].1 == r);
                            } else {
                                assert(seen0.contains(x));
                                let k = choose|k: int| 0 <= k < s0.len() && is_relaunch(s0[k].1) && relaunch_key(#[trigger] s0[k].1) == x;
                                assert(steps[k] == s0[k]);
                            }
                        }
                        assert forall|k: int| 0 <= k < steps.len() && is_relaunch((#[trigger] steps[k]).1) implies seen.contains(relaunch_key(steps[k].1)) by {
                            if k < s0.len() {
                                assert(steps[k] == s0[k]);
                                assert(seen0.contains(relaunch_key(s0[k].1)));
                                let j = choose|j: int| 0 <= j < seen0.len() && seen0[j] == relaunch_key(s0[k].1);
                                assert(seen[j] == seen0[j]);
                            } else {
                                assert(seen[seen.len() - 1] == relaunch_key(r));
                            }
                        }
                        assert forall|i: int| m <= i < done.len() && undo_of(done[i]) is Some && is_relaunch(undo_of(done[i])->0) implies #[trigger] seen.contains(relaunch_key(undo_of(done[i])->0)) by {
                            if i == m {
                                assert(seen[seen.len() - 1] == relaunch_key(r));
                            } else {
                                assert(seen0.contains(relaunch_key(undo_of(done[i])->0)));
                                let j = choose|j: int| 0 <= j < seen0.len() && seen0[j] == relaunch_key(undo_of(done[i])->0);
                                assert(seen[j] == seen0[j]);
                            }
                        }
                        assert forall|a: int, b: int| 0 <= a < b < steps.len() && is_relaunch(steps[a].1) && is_relaunch(steps[b].1) implies relaunch_key(steps[a].1) != relaunch_key(steps[b].1) by {
                            if b == steps.len() - 1 {
                                assert(steps[a] == s0[a]);
                                assert(seen0.contains(relaunch_key(s0[a].1)));
                            } else {
                                assert(steps[a] == s0[a]);
                                assert(steps[b] == s0[b]);
                            }
                        }
                        assert forall|i: int| m <= i < done.len() && undo_of(done[i]) is Some && !(is_relaunch(undo_of(done[i])->0)) implies exists|k: int| 0 <= k < steps.len() && (#[trigger] steps[k]).0 == i by {
                            let k = choose|k: int| 0 <= k < s0.len() && (#[trigger] s0[k]).0 == i;
                            assert(steps[k] == s0[k]);
                        }
                        assert forall|k: int, j: int| #![trigger steps[k], done[j]] 0 <= k < steps.len() && is_relaunch(steps[k].1) && steps[k].0 < j < done.len() && undo_of(done[j]) is Some && is_relaunch(undo_of(done[j])->0) implies relaunch_key(undo_of(done[j])->0) != relaunch_key(steps[k].1) by {
                            if k < s0.len() {
                                assert(steps[k] == s0[k]);
                                assert(s0[k] == s0[k] && done[j] == done[j]);
                            } else {
                                assert(steps[k] == (m, r));
                                assert(seen0.contains(relaunch_key(undo_of(done[j])->0)));
                            }
                        }
                    }
                } else {
                    assert forall|x| #[trigger] seen.contains(x) implies exists|k: int| 0 <= k < steps.len() && is_relaunch(steps[k].1) && relaunch_key(#[trigger] steps[k].1) == x by {
                        let k = choose|k: int| 0 <= k < s0.len() && is_relaunch(s0[k].1) && relaunch_key(#[trigger] s0[k].1) == x;
                        assert(steps[k] == s0[k]);
                    }
                    assert forall|k: int| 0 <= k < steps.len() && is_relaunch((#[trigger] steps[k]).1) implies seen.contains(relaunch_key(steps[k].1)) by {
                        assert(steps[k] == s0[k]);
                    }
                    assert forall|a: int, b: int| 0 <= a < b < steps.len() && is_relaunch(steps[a].1) && is_relaunch(steps[b].1) implies relaunch_key(steps[a].1) != relaunch_key(steps[b].1) by {
                        assert(steps[a] == s0[a]);
                        assert(steps[b] == s0[b]);
                    }
                    assert forall|k: int, j: int| #![trigger steps[k], done[j]] 0 <= k < steps.len() && is_relaunch(steps[k].1) && steps[k].0 < j < done.len() && undo_of(done[j]) is Some && is_relaunch(undo_of(done[j])->0) implies relaunch_key(undo_of(done[j])->0) != relaunch_key(steps[k].1) by {
                        assert(steps[k] == s0[k]);
                        assert(s0[k] == s0[k] && done[j] == done[j]);
                    }
                    assert forall|i: int| m <= i < done.len() && undo_of(done[i]) is Some && !(is_relaunch(undo_of(done[i])->0)) implies exists|k: int| 0 <= k < steps.len() && (#[trigger] steps[k]).0 == i by {
                        if i == m {
                            assert(steps[steps.len() - 1].0 == m);
                        } else {
                            let k = choose|k: int| 0 <= k < s0.len() && (#[trigger] s0[k]).0 == i;
                            assert(steps[k] == s0[k]);
                        }
                    }
                }
            },
        }
    }
}

/// What restoring replays, for any journal: each undo step belongs to the
/// entry at its index and undoes it; entries come newest first; every entry
/// that has an undo and is not a relaunch is replayed; and every closed
/// program is relaunched exactly once per key, from its newest entry: a
/// recorded executable once, whatever the arguments of its closed
/// instances, and a program without a recorded path once per argument list.
pub proof fn lemma_restore_replays_in_reverse(done: Seq<DoneView>)
    ensures
        ({
            let steps = undo_plan(done, 0).0;
            &&& forall|k: int| 0 <= k < steps.len() ==> 0 <= (#[trigger] steps[k]).0 < done.len() && undo_of(done[steps[k].0]) == Some(steps[k].1)
            &&& forall|a: int, b: int| 0 <= a < b < steps.len() ==> steps[a].0 > steps[b].0
            &&& forall|i: int| 0 <= i < done.len() && undo_of(done[i]) is Some && !(is_relaunch(undo_of(done[i])->0)) ==> exists|k: int| 0 <= k < steps.len() && (#[trigger] steps[k]).0 == i
            &&& forall|i: int| 0 <= i < done.len() && undo_of(done[i]) is Some && is_relaunch(undo_of(done[i])->0) ==> exists|k: int| 0 <= k < steps.len() && is_relaunch(steps[k].1) && #[trigger] relaunch_key(steps[k].1) == relaunch_key(undo_of(done[i])->0)
            &&& forall|a: int, b: int| 0 <= a < b < steps.len() && is_relaunch(steps[a].1) && is_relaunch(steps[b].1) ==> relaunch_key(steps[a].1) != relaunch_key(steps[b].1)
            &&& forall|k: int, j: int| #![trigger steps[k], done[j]] 0 <= k < steps.len() && is_relaunch(steps[k].1) && steps[k].0 < j < done.len() && undo_of(done[j]) is Some && is_relaunch(undo_of(done[j])->0) ==> relaunch_key(undo_of(done[j])->0) != relaunch_key(steps[k].1)
        }),
{
    lemma_undo_plan_facts(done, 0);
    let (steps, seen) = undo_plan(done, 0);
    assert forall|i: int| 0 <= i < done.len() && undo_of(done[i]) is Some && is_relaunch(undo_of(done[i])->0) implies exists|k: int| 0 <= k < steps.len() && is_relaunch(steps[k].1) && #[trigger] relaunch_key(steps[k].1) == relaunch_key(undo_of(done[i])->0) by {
        assert(seen.contains(relaunch_key(undo_of(done[i])->0)));
    }
}

impl Journal {
    pub fn new(started_at: u64) -> (j: Journal)
        ensures
            j.version == CURRENT_VERSION,
            j.started_at == started_at,
            j.done@.len() == 0,
    {
        Journal { version: CURRENT_VERSION, started_at, done: Vec::new() }
    }

    /// What was read from disk, accepted: nothing means there is nothing to
    /// restore, and a journal from a newer app is an error, never silently
    /// discarded, because it describes real changes. `path` names the file in
    /// the message.
    pub fn load(found: Option<Journal>, path: &str) -> (r: Result<Option<Journal>, CoreError>)
        ensures
            match found {
                None => r matches Ok(None),
                Some(j) => if j.version > CURRENT_VERSION {
                    r matches Err(CoreError::Invalid(m)) && m@ == path@ + " was written by a newer ComputeQuiet (version "@ + decimal(j.version as nat) + "); update the app before restoring"@
                } else {
                    r matches Ok(Some(k)) && k == j
                },
            },
    {
        match found {
            None => Ok(None),
            Some(journal) => {
                if journal.version > CURRENT_VERSION {
                    let mut m = String::from_str(path);
                    m.append(" was written by a newer ComputeQuiet (version ");
                    push_decimal(&mut m, journal.version as u64);
                    m.append("); update the app before restoring");
                    Err(CoreError::Invalid(m))
                } else {
                    Ok(Some(journal))
                }
            },
        }
    }

    /// A journal with the same contents.
    pub fn copy(&self) -> (r: Journal)
        ensures
            r.version == self.version,
            r.started_at == self.started_at,
            done_views(r.done@) == done_views(self.done@),
    {
        let mut done: Vec<DoneStep> = Vec::new();
        let mut i: usize = 0;
        while i < self.done.len()
            invariant
                i <= self.done@.len(),
                done_views(done@) == done_views(self.done@.take(i as int)),
            decreases self.done.len() - i,
        {
            let d = self.done[i].copy();
            let ghost before = done@;
            done.push(d);
            assert(done_views(done@) =~= done_views(before).push(self.done@[i as int]@));
            assert(self.done@.take(i + 1) =~= self.done@.take(i as int).push(self.done@[i as int]));
            assert(done_views(self.done@.take(i + 1)) =~= done_views(self.done@.take(i as int)).push(self.done@[i as int]@));
            i = i + 1;
        }
        assert(self.done@.take(self.done@.len() as int) =~= self.done@);
        Journal { version: self.version, started_at: self.started_at, done }
    }

    pub fn record(&mut self, step: DoneStep)
        ensures
            final(self).done@ == old(self).done@.push(step),
            final(self).version == old(self).version,
            final(self).started_at == old(self).started_at,
    {
        self.done.push(step);
    }

    /// Undo steps, newest first. Several closed instances of one recorded
    /// executable are relaunched once, from the newest entry; the program
    /// decides how many copies it wants. Without a recorded path, instances
    /// with the same arguments are relaunched once.
    pub fn restore_steps(&self) -> (r: Vec<(usize, RestoreStep)>)
        ensures
            indexed_views(r@) == undo_plan(done_views(self.done@), 0).0,
            forall|a: int, b: int| 0 <= a < b < r@.len() && is_relaunch(r@[a].1@) && is_relaunch(r@[b].1@)
                ==> relaunch_key(r@[a].1@) != relaunch_key(r@[b].1@),
            forall|i: int| #![trigger self.done@[i]] 0 <= i < self.done@.len() && undo_of(self.done@[i]@) is Some && is_relaunch(undo_of(self.done@[i]@)->0)
                ==> exists|k: int| 0 <= k < r@.len() && is_relaunch(r@[k].1@) && #[trigger] relaunch_key(r@[k].1@) == relaunch_key(undo_of(self.done@[i]@)->0),
    {
        proof {
            lemma_restore_replays_in_reverse(done_views(self.done@));
        }
        let ghost done = done_views(self.done@);
        let mut seen: Vec<(Option<String>, Vec<String>)> = Vec::new();
        let mut steps: Vec<(usize, RestoreStep)> = Vec::new();
        let mut index: usize = self.done.len();
        assert(indexed_views(steps@) =~= Seq::<(int, RestoreView)>::empty());
        assert(keys_view(seen@) =~= Seq::<(Option<Seq<char>>, Seq<Seq<char>>)>::empty());
        while index > 0
            invariant
                index <= self.done@.len(),
                done == done_views(self.done@),
                indexed_views(steps@) == undo_plan(done, index as int).0,
                keys_view(seen@) == undo_plan(done, index as int).1,
            decreases index,
        {
            index = index - 1;
            let ghost before = undo_plan(done, index + 1);
            assert(done[index as int] == self.done@[index as int]@);
            match self.done[index].restore() {
                None => {},
                Some(step) => {
                    let ghost sv = step@;
                    match &step {
                        RestoreStep::Relaunch { exe, args, .. } => {
                            let key = match exe {
                                Some(_) => (copy_opt(exe), Vec::new()),
                                None => (None, copy_strings(args)),
                            };
                            assert(key_view(key) =~= relaunch_key(sv));
                            if !seen_key(&seen, &key) {
                                seen.push(key);
                                assert(keys_view(seen@) =~= before.1.push(relaunch_key(sv)));
                                steps.push((index, step));
                                assert(indexed_views(steps@) =~= before.0.push((index as int, sv)));
                            }
                        },
                        _ => {
                            steps.push((index, step));
                            assert(indexed_views(steps@) =~= before.0.push((index as int, sv)));
                        },
                    }
                },
            }
        }
        proof {
            let ghost d = done_views(self.done@);
            let ghost u = undo_plan(d, 0).0;
            assert forall|k: int| 0 <= k < steps@.len() implies steps@[k].1@ == u[k].1 by {
                assert(indexed_views(steps@)[k] == u[k]);
            }
            assert forall|i: int| 0 <= i < self.done@.len() implies d[i] == self.done@[i]@ by {}
            assert forall|a: int, b: int| 0 <= a < b < steps@.len() && is_relaunch(steps@[a].1@) && is_relaunch(steps@[b].1@)
                implies relaunch_key(steps@[a].1@) != relaunch_key(steps@[b].1@) by {
                assert(steps@[a].1@ == u[a].1 && steps@[b].1@ == u[b].1);
            }
            assert forall|i: int| #![trigger self.done@[i]] 0 <= i < self.done@.len() && undo_of(self.done@[i]@) is Some && is_relaunch(undo_of(self.done@[i]@)->0)
                implies exists|k: int| 0 <= k < steps@.len() && is_relaunch(steps@[k].1@) && #[trigger] relaunch_key(steps@[k].1@) == relaunch_key(undo_of(self.done@[i]@)->0) by {
                assert(d[i] == self.done@[i]@);
                let k = choose|k: int| 0 <= k < u.len() && is_relaunch(u[k].1) && #[trigger] relaunch_key(u[k].1) == relaunch_key(undo_of(d[i])->0);
                assert(steps@[k].1@ == u[k].1);
            }
        }
        steps
    }

    /// Keep only the entries whose restore failed (or has no undo), so a
    /// retry does not repeat what already succeeded.
    pub fn retain(&mut self, failed: &HashSet<usize>)
        ensures
            done_views(final(self).done@) == retained(done_views(old(self).done@), failed@, old(self).done@.len() as int),
            final(self).version == old(self).version,
            final(self).started_at == old(self).started_at,
    {
        let ghost done = done_views(self.done@);
        let mut kept: Vec<DoneStep> = Vec::new();
        let mut index: usize = 0;
        assert(done_views(kept@) =~= Seq::<DoneView>::empty());
        while index < self.done.len()
            invariant
                index <= self.done@.len(),
                done == done_views(self.done@),
                done_views(kept@) == retained(done, failed@, index as int),
            decreases self.done.len() - index,
        {
            assert(done[index as int] == self.done@[index as int]@);
            let undo = self.done[index].restore();
            if failed.contains(&index) && undo.is_some() {
                let ghost before = done_views(kept@);
                kept.push(self.done[index].copy());
                assert(done_views(kept@) =~= before.push(done[index as int]));
            }
            index = index + 1;
        }
        self.done = kept;
    }

    pub fn summary(&self) -> (s: Summary)
        ensures
            summarizes(s, done_views(self.done@)),
            s.services_stopped == count_of(done_views(self.done@), |d: DoneView| is_service_stop(d)),
            s.processes_suspended == count_of(done_views(self.done@), |d: DoneView| is_suspension(d)),
            s.processes_closed == count_of(done_views(self.done@), |d: DoneView| is_closure(d)),
            s.power_changed == any_of(done_views(self.done@), |d: DoneView| is_power_change(d)),
            s.memory_purged == any_of(done_views(self.done@), |d: DoneView| is_purge(d)),
    {
        let ghost done = done_views(self.done@);
        let mut summary = Summary {
            services_stopped: 0,
            processes_suspended: 0,
            processes_closed: 0,
            power_changed: false,
            memory_purged: false,
        };
        let mut i: usize = 0;
        while i < self.done.len()
            invariant
                i <= self.done@.len(),
                done == done_views(self.done@),
                summary.services_stopped == count_of(done.take(i as int), |d: DoneView| is_service_stop(d)),
                summary.processes_suspended == count_of(done.take(i as int), |d: DoneView| is_suspension(d)),
                summary.processes_closed == count_of(done.take(i as int), |d: DoneView| is_closure(d)),
                summary.power_changed == any_of(done.take(i as int), |d: DoneView| is_power_change(d)),
                summary.memory_purged == any_of(done.take(i as int), |d: DoneView| is_purge(d)),
            decreases self.done.len() - i,
        {
            let ghost t = done.take(i + 1);
            assert(t.drop_last() =~= done.take(i as int));
            assert(t.last() == self.done@[i as int]@);
            proof {
                lemma_count_bound(done.take(i as int), |d: DoneView| is_service_stop(d));
                lemma_count_bound(done.take(i as int), |d: DoneView| is_suspension(d));
                lemma_count_bound(done.take(i as int), |d: DoneView| is_closure(d));
            }
            match &self.done[i] {
                DoneStep::PowerPlanChanged { .. } => {
                    summary.power_changed = true;
                },
                DoneStep::ServiceStopped { .. } => {
                    summary.services_stopped = summary.services_stopped + 1;
                },
                DoneStep::ProcessSuspended { .. } => {
                    summary.processes_suspended = summary.processes_suspended + 1;
                },
                DoneStep::ProcessClosed { .. } => {
                    summary.processes_closed = summary.processes_closed + 1;
                },
                DoneStep::MemoryPurged => {
                    summary.memory_purged = true;
                },
            }
            assert forall|k: int| 0 <= k < i implies t[k] == done.take(i as int)[k] by {}
            i = i + 1;
        }
        assert(done.take(self.done@.len() as int) =~= done);
        summary
    }
}

} // verus!
