//! The scanner: given what is running right now, what could Quiet Mode park
//! that the profile does not already cover, and how sure are we?
//!
//! Three sources, in order of confidence: the catalogue of known background
//! software; running services from the catalogue; and, when the platform can
//! say which processes own a visible window, large processes that own none.
//! Plus the two system-level savings: a non-performance power plan and a
//! large file cache.

use vstd::prelude::*;
use crate::catalogue::{self, known_services, risk_rank, Risk};
use crate::policy::{normalize, normalized};
use crate::profile::{Os, PowerPolicy, ProcessAction, ProcessTarget, Profile, ProfileView, ServiceTarget};
use crate::plan::contains_pid;
use crate::snapshot::{Activity, ProcessInfo, ServiceInfo, ServiceState, Snapshot, SystemStats};
use crate::policy::{critical, is_critical, name_matches};
use crate::plan::Capabilities;
use crate::text::{contains, eq_ignore_case, eq_ignore_case_str, lower, contains_str, to_lower};

verus! {

/// A background process with no window is worth mentioning from here up.
pub const HEAVY_MEMORY_BYTES: u64 = 209715200;
/// Three percent, in millionths of a percent.
pub const HEAVY_CPU_MILLIONTHS: u64 = 3000000;
/// A file cache this large is worth purging before a model load.
pub const CACHE_WORTH_PURGING: u64 = 1073741824;

pub const ULTIMATE_PLAN: &'static str = "e9a42b02-d5df-448d-aa00-03f14749eb61";
pub const HIGH_PERFORMANCE_PLAN: &'static str = "8c5e7fda-e8bf-4a96-9a85-a6e23a8c635c";

#[derive(Debug, Clone, Copy, PartialEq, Eq, Structural)]
pub enum RecommendationKind {
    Process { action: ProcessAction },
    Service,
    PowerPlan,
    MemoryPurge,
}

#[derive(Debug, Clone, PartialEq, Eq)]
pub struct Recommendation {
    pub kind: RecommendationKind,
    /// Process name, service name, or a label for the system-level items.
    pub name: String,
    pub reason: String,
    pub risk: Risk,
    pub memory_bytes: u64,
    /// CPU use in millionths of a percent, summed over the instances.
    pub cpu_millionths: u64,
    pub instances: usize,
    /// The profile already covers this (even if the target is disabled).
    pub already_targeted: bool,
}

/// A recommendation as plain values.
pub struct RecView {
    pub kind: RecommendationKind,
    pub name: Seq<char>,
    pub reason: Seq<char>,
    pub risk: Risk,
    pub memory_bytes: u64,
    pub cpu_millionths: u64,
    pub instances: usize,
    pub already_targeted: bool,
}

impl View for Recommendation {
    type V = RecView;

    open spec fn view(&self) -> RecView {
        RecView {
            kind: self.kind,
            name: self.name@,
            reason: self.reason@,
            risk: self.risk,
            memory_bytes: self.memory_bytes,
            cpu_millionths: self.cpu_millionths,
            instances: self.instances,
            already_targeted: self.already_targeted,
        }
    }
}

pub open spec fn recs_view(v: Seq<Recommendation>) -> Seq<RecView> {
    v.map_values(|r: Recommendation| r@)
}

impl Recommendation {
    pub fn copy(&self) -> (r: Recommendation)
        ensures
            r@ == self@,
    {
        Recommendation {
            kind: self.kind,
            name: self.name.clone(),
            reason: self.reason.clone(),
            risk: self.risk,
            memory_bytes: self.memory_bytes,
            cpu_millionths: self.cpu_millionths,
            instances: self.instances,
            already_targeted: self.already_targeted,
        }
    }
}

/// A plan that already runs flat out: the Windows Ultimate and High
/// performance GUIDs, Linux's `performance` profile, or any plan whose name
/// says performance or ultimate.
pub open spec fn performance_plan(id: Seq<char>, name: Seq<char>) -> bool {
    let i = lower(id);
    ||| i == ULTIMATE_PLAN@
    ||| i == HIGH_PERFORMANCE_PLAN@
    ||| i == "performance"@
    ||| contains(lower(name), "performance"@)
    ||| contains(lower(name), "ultimate"@)
}

/// Windows plan GUIDs for Ultimate and High performance, Linux's
/// `performance` profile, the fake platform's plan id, and any plan whose
/// name says so, because a tuned custom plan ("Revision - Ultra Performance")
/// is not a saving to be made.
pub fn is_performance_plan(id: &str, name: &str) -> (r: bool)
    ensures
        r == performance_plan(id@, name@),
{
    let i = to_lower(id);
    let by_id = i == String::from_str(ULTIMATE_PLAN) || i == String::from_str(HIGH_PERFORMANCE_PLAN) || i == String::from_str("performance");
    let lowered = to_lower(name);
    by_id || contains_str(lowered.as_str(), "performance") || contains_str(lowered.as_str(), "ultimate")
}

/// The names to query, after the catalogue's services of `known[..n]` were
/// considered: the profile's names, then every catalogue name not already
/// present (ASCII case ignored).
pub open spec fn query_names(start: Seq<Seq<char>>, known: Seq<(Seq<char>, Seq<char>, Risk)>, n: int) -> Seq<Seq<char>>
    decreases n,
{
    if n <= 0 {
        start
    } else {
        let names = query_names(start, known, n - 1);
        let k = known[n - 1].0;
        if exists|i: int| 0 <= i < names.len() && eq_ignore_case(#[trigger] names[i], k) {
            names
        } else {
            names.push(k)
        }
    }
}

/// Whether `names` holds `name`, ASCII case ignored.
fn has_name(names: &Vec<String>, name: &str) -> (r: bool)
    ensures
        r == exists|i: int| 0 <= i < names@.len() && eq_ignore_case(#[trigger] names@[i]@, name@),
{
    let mut i: usize = 0;
    while i < names.len()
        invariant
            i <= names@.len(),
            forall|k: int| 0 <= k < i ==> !eq_ignore_case(#[trigger] names@[k]@, name@),
        decreases names.len() - i,
    {
        if eq_ignore_case_str(names[i].as_str(), name) {
            return true;
        }
        i = i + 1;
    }
    false
}

/// Which services the scan should ask the platform about: the profile's plus
/// the catalogue's for this OS.
pub fn service_names_to_query(profile: &Profile, os: Os) -> (names: Vec<String>)
    ensures
        crate::plan::strings_view(names@) == query_names(
            profile.services@.map_values(|t: ServiceTarget| t.name@),
            known_services(os),
            known_services(os).len() as int,
        ),
{
    let ghost start = profile.services@.map_values(|t: ServiceTarget| t.name@);
    let mut names: Vec<String> = Vec::new();
    let mut i: usize = 0;
    while i < profile.services.len()
        invariant
            i <= profile.services@.len(),
            start == profile.services@.map_values(|t: ServiceTarget| t.name@),
            crate::plan::strings_view(names@) == start.take(i as int),
        decreases profile.services.len() - i,
    {
        let ghost before = names@;
        let n = crate::plan::copy_string(&profile.services[i].name);
        names.push(n);
        assert(start[i as int] == profile.services@[i as int].name@);
        assert(crate::plan::strings_view(names@) =~= crate::plan::strings_view(before).push(n@));
        assert(start.take(i + 1) =~= start.take(i as int).push(start[i as int]));
        i = i + 1;
    }
    assert(start.take(start.len() as int) =~= start);
    let known = catalogue::services(os);
    let ghost entries = known_services(os);
    let mut j: usize = 0;
    while j < known.len()
        invariant
            j <= known@.len(),
            entries == known_services(os),
            catalogue::service_entries(known@) == entries,
            crate::plan::strings_view(names@) == query_names(start, entries, j as int),
        decreases known.len() - j,
    {
        let name = known[j].name;
        assert(entries[j as int].0 == name@);
        let ghost before = names@;
        if !has_name(&names, name) {
            names.push(String::from_str(name));
            assert(crate::plan::strings_view(names@) =~= crate::plan::strings_view(before).push(name@));
        } else {
            let ghost k = choose|k: int| 0 <= k < before.len() && eq_ignore_case(#[trigger] before[k]@, name@);
            assert(crate::plan::strings_view(before)[k] == before[k]@);
        }
        assert(forall|k: int| 0 <= k < before.len() ==> crate::plan::strings_view(before)[k] == before[k]@);
        j = j + 1;
    }
    names
}


/// Whether an accepted item is already covered by profile `p`.
pub open spec fn covered(p: ProfileView, item: RecView) -> bool {
    match item.kind {
        RecommendationKind::Process { .. } => exists|i: int| 0 <= i < p.processes.len() && normalized(#[trigger] p.processes[i].0) == normalized(item.name),
        RecommendationKind::Service => exists|i: int| 0 <= i < p.services.len() && eq_ignore_case(#[trigger] p.services[i].0, item.name),
        RecommendationKind::PowerPlan => p.power == PowerPolicy::Performance,
        RecommendationKind::MemoryPurge => p.purge_memory,
    }
}

/// Profile `p` with one accepted item folded in.
pub open spec fn apply_one(p: ProfileView, item: RecView) -> ProfileView {
    if covered(p, item) {
        p
    } else {
        match item.kind {
            RecommendationKind::Process { action } => ProfileView { processes: p.processes.push((item.name, action, true)), ..p },
            RecommendationKind::Service => ProfileView { services: p.services.push((item.name, true)), ..p },
            RecommendationKind::PowerPlan => ProfileView { power: PowerPolicy::Performance, ..p },
            RecommendationKind::MemoryPurge => ProfileView { purge_memory: true, ..p },
        }
    }
}

/// Profile `p` with all accepted items folded in, in order.
pub open spec fn applied(p: ProfileView, accepted: Seq<RecView>) -> ProfileView
    decreases accepted.len(),
{
    if accepted.len() == 0 {
        p
    } else {
        apply_one(applied(p, accepted.drop_last()), accepted.last())
    }
}

/// `q` keeps everything of `p` and may only add targets or switch the two
/// flags on.
pub open spec fn extends(p: ProfileView, q: ProfileView) -> bool {
    &&& p.processes.len() <= q.processes.len()
    &&& q.processes.take(p.processes.len() as int) == p.processes
    &&& p.services.len() <= q.services.len()
    &&& q.services.take(p.services.len() as int) == p.services
    &&& q.keep_alive == p.keep_alive
    &&& (p.power == PowerPolicy::Performance ==> q.power == PowerPolicy::Performance)
    &&& (p.purge_memory ==> q.purge_memory)
}

proof fn lemma_extends_keeps_covered(p: ProfileView, q: ProfileView, item: RecView)
    requires
        extends(p, q),
        covered(p, item),
    ensures
        covered(q, item),
{
    match item.kind {
        RecommendationKind::Process { .. } => {
            let i = choose|i: int| 0 <= i < p.processes.len() && normalized(#[trigger] p.processes[i].0) == normalized(item.name);
            assert(q.processes.take(p.processes.len() as int)[i] == q.processes[i]);
        },
        RecommendationKind::Service => {
            let i = choose|i: int| 0 <= i < p.services.len() && eq_ignore_case(#[trigger] p.services[i].0, item.name);
            assert(q.services.take(p.services.len() as int)[i] == q.services[i]);
        },
        _ => {},
    }
}

proof fn lemma_extends_trans(p: ProfileView, q: ProfileView, r: ProfileView)
    requires
        extends(p, q),
        extends(q, r),
    ensures
        extends(p, r),
{
    assert(r.processes.take(p.processes.len() as int) =~= q.processes.take(p.processes.len() as int));
    assert(r.services.take(p.services.len() as int) =~= q.services.take(p.services.len() as int));
}

proof fn lemma_apply_one(p: ProfileView, item: RecView)
    ensures
        extends(p, apply_one(p, item)),
        covered(apply_one(p, item), item),
{
    let q = apply_one(p, item);
    assert(q.processes.take(p.processes.len() as int) =~= p.processes);
    assert(q.services.take(p.services.len() as int) =~= p.services);
    if !covered(p, item) {
        match item.kind {
            RecommendationKind::Process { action } => {
                assert(normalized(q.processes[p.processes.len() as int].0) == normalized(item.name));
            },
            RecommendationKind::Service => {
                assert(eq_ignore_case(q.services[p.services.len() as int].0, item.name));
            },
            _ => {},
        }
    }
}

proof fn lemma_applied(p: ProfileView, accepted: Seq<RecView>)
    ensures
        extends(p, applied(p, accepted)),
        forall|k: int| 0 <= k < accepted.len() ==> covered(applied(p, accepted), #[trigger] accepted[k]),
    decreases accepted.len(),
{
    if accepted.len() == 0 {
        assert(p.processes.take(p.processes.len() as int) =~= p.processes);
        assert(p.services.take(p.services.len() as int) =~= p.services);
    } else {
        let q = applied(p, accepted.drop_last());
        lemma_applied(p, accepted.drop_last());
        lemma_apply_one(q, accepted.last());
        lemma_extends_trans(p, q, applied(p, accepted));
        assert forall|k: int| 0 <= k < accepted.len() implies covered(applied(p, accepted), #[trigger] accepted[k]) by {
            if k < accepted.len() - 1 {
                assert(accepted.drop_last()[k] == accepted[k]);
                lemma_extends_keeps_covered(q, applied(p, accepted), accepted[k]);
            }
        }
    }
}

proof fn lemma_applied_when_covered(q: ProfileView, accepted: Seq<RecView>)
    requires
        forall|k: int| 0 <= k < accepted.len() ==> covered(q, #[trigger] accepted[k]),
    ensures
        applied(q, accepted) == q,
    decreases accepted.len(),
{
    if accepted.len() > 0 {
        assert forall|k: int| 0 <= k < accepted.drop_last().len() implies covered(q, #[trigger] accepted.drop_last()[k]) by {
            assert(accepted.drop_last()[k] == accepted[k]);
        }
        lemma_applied_when_covered(q, accepted.drop_last());
        assert(covered(q, accepted[accepted.len() - 1]));
    }
}

/// Folding accepted finds into a profile keeps every existing target as it
/// was (new targets are only appended, the two flags only switched on), and
/// folding the same finds in a second time changes nothing.
pub proof fn lemma_apply_adds_once(p: ProfileView, accepted: Seq<RecView>)
    ensures
        extends(p, applied(p, accepted)),
        applied(applied(p, accepted), accepted) == applied(p, accepted),
{
    lemma_applied(p, accepted);
    lemma_applied_when_covered(applied(p, accepted), accepted);
}

/// Folding accepted finds in appends only enabled targets, and switches the
/// performance power plan (the memory purge) on exactly when it was on
/// already or an accepted find asks for it.
pub proof fn lemma_apply_enables_what_was_asked(p: ProfileView, accepted: Seq<RecView>)
    ensures
        ({
            let q = applied(p, accepted);
            &&& forall|k: int| p.processes.len() <= k < q.processes.len() ==> (#[trigger] q.processes[k]).2
            &&& forall|k: int| p.services.len() <= k < q.services.len() ==> (#[trigger] q.services[k]).1
            &&& (q.power == PowerPolicy::Performance <==> (p.power == PowerPolicy::Performance
                || exists|k: int| 0 <= k < accepted.len() && (#[trigger] accepted[k]).kind is PowerPlan))
            &&& (q.purge_memory <==> (p.purge_memory
                || exists|k: int| 0 <= k < accepted.len() && (#[trigger] accepted[k]).kind is MemoryPurge))
        }),
    decreases accepted.len(),
{
    if accepted.len() > 0 {
        let rest = accepted.drop_last();
        let item = accepted.last();
        let m = applied(p, rest);
        let q = applied(p, accepted);
        lemma_apply_enables_what_was_asked(p, rest);
        lemma_applied(p, rest);
        assert(q == apply_one(m, item));
        assert forall|k: int| p.processes.len() <= k < q.processes.len() implies (#[trigger] q.processes[k]).2 by {
            if k < m.processes.len() {
                assert(q.processes[k] == m.processes[k]);
            }
        }
        assert forall|k: int| p.services.len() <= k < q.services.len() implies (#[trigger] q.services[k]).1 by {
            if k < m.services.len() {
                assert(q.services[k] == m.services[k]);
            }
        }
        if exists|k: int| 0 <= k < rest.len() && (#[trigger] rest[k]).kind is PowerPlan {
            let k = choose|k: int| 0 <= k < rest.len() && (#[trigger] rest[k]).kind is PowerPlan;
            assert(accepted[k] == rest[k]);
        }
        if exists|k: int| 0 <= k < accepted.len() && (#[trigger] accepted[k]).kind is PowerPlan {
            let k = choose|k: int| 0 <= k < accepted.len() && (#[trigger] accepted[k]).kind is PowerPlan;
            if k < rest.len() {
                assert(rest[k] == accepted[k]);
            }
        }
        if exists|k: int| 0 <= k < rest.len() && (#[trigger] rest[k]).kind is MemoryPurge {
            let k = choose|k: int| 0 <= k < rest.len() && (#[trigger] rest[k]).kind is MemoryPurge;
            assert(accepted[k] == rest[k]);
        }
        if exists|k: int| 0 <= k < accepted.len() && (#[trigger] accepted[k]).kind is MemoryPurge {
            let k = choose|k: int| 0 <= k < accepted.len() && (#[trigger] accepted[k]).kind is MemoryPurge;
            if k < rest.len() {
                assert(rest[k] == accepted[k]);
            }
        }
    }
}

/// Whether some target of `targets` normalizes to the same name as `name`.
fn has_process_target(targets: &Vec<ProcessTarget>, name: &String) -> (r: bool)
    ensures
        r == exists|i: int| 0 <= i < targets@.len() && normalized(#[trigger] targets@[i].name@) == normalized(name@),
{
    let wanted = normalize(name.as_str());
    let mut i: usize = 0;
    while i < targets.len()
        invariant
            i <= targets@.len(),
            wanted@ == normalized(name@),
            forall|k: int| 0 <= k < i ==> normalized(#[trigger] targets@[k].name@) != normalized(name@),
        decreases targets.len() - i,
    {
        if normalize(targets[i].name.as_str()) == wanted {
            return true;
        }
        i = i + 1;
    }
    false
}

/// Whether some target of `targets` has name `name`, ASCII case ignored.
fn has_service_target(targets: &Vec<ServiceTarget>, name: &String) -> (r: bool)
    ensures
        r == exists|i: int| 0 <= i < targets@.len() && eq_ignore_case(#[trigger] targets@[i].name@, name@),
{
    let mut i: usize = 0;
    while i < targets.len()
        invariant
            i <= targets@.len(),
            forall|k: int| 0 <= k < i ==> !eq_ignore_case(#[trigger] targets@[k].name@, name@),
        decreases targets.len() - i,
    {
        if eq_ignore_case_str(targets[i].name.as_str(), name.as_str()) {
            return true;
        }
        i = i + 1;
    }
    false
}

/// Fold accepted recommendations into a profile: new targets are appended
/// enabled, power and purge flags are switched on, existing entries are left
/// exactly as they were.
pub fn apply(profile: &Profile, accepted: &Vec<Recommendation>) -> (next: Profile)
    ensures
        next@ == applied(profile@, recs_view(accepted@)),
{
    let mut next = profile.copy();
    let ghost acc = recs_view(accepted@);
    let mut k: usize = 0;
    assert(acc.take(0) =~= Seq::<RecView>::empty());
    while k < accepted.len()
        invariant
            k <= accepted@.len(),
            acc == recs_view(accepted@),
            next@ == applied(profile@, acc.take(k as int)),
        decreases accepted.len() - k,
    {
        let item = &accepted[k];
        assert(acc.take(k + 1).drop_last() =~= acc.take(k as int));
        assert(acc.take(k + 1).last() == item@);
        let ghost before = next@;
        match item.kind {
            RecommendationKind::Process { action } => {
                if !has_process_target(&next.processes, &item.name) {
                    next.processes.push(ProcessTarget { name: item.name.clone(), action, enabled: true });
                    assert(next@.processes =~= before.processes.push((item.name@, action, true)));
                } else {
                    assert(forall|i: int| 0 <= i < next.processes@.len() ==> before.processes[i].0 == #[trigger] next.processes@[i].name@);
                }
            },
            RecommendationKind::Service => {
                if !has_service_target(&next.services, &item.name) {
                    next.services.push(ServiceTarget { name: item.name.clone(), enabled: true });
                    assert(next@.services =~= before.services.push((item.name@, true)));
                } else {
                    assert(forall|i: int| 0 <= i < next.services@.len() ==> before.services[i].0 == #[trigger] next.services@[i].name@);
                }
            },
            RecommendationKind::PowerPlan => {
                next.power = PowerPolicy::Performance;
            },
            RecommendationKind::MemoryPurge => {
                next.purge_memory = true;
            },
        }
        assert(next@ == apply_one(before, item@));
        k = k + 1;
    }
    assert(acc.take(accepted@.len() as int) =~= acc);
    next
}


/// The first group, from position `i` on, whose name normalizes to `key`.
pub open spec fn find_group_from(groups: Seq<(Seq<char>, Seq<int>)>, key: Seq<char>, i: int) -> Option<int>
    decreases groups.len() - i,
{
    if i < 0 || i >= groups.len() {
        None
    } else if normalized(groups[i].0) == key {
        Some(i)
    } else {
        find_group_from(groups, key, i + 1)
    }
}

/// The processes of `procs[..n]` grouped by normalized name, in order of
/// first appearance, skipping this app, critical processes and unnamed ones.
/// Each group keeps the name of its first process and its members' indices.
pub open spec fn grouping(procs: Seq<ProcessInfo>, self_pid: u32, os: Os, n: int) -> Seq<(Seq<char>, Seq<int>)>
    decreases n,
{
    if n <= 0 || n > procs.len() {
        Seq::empty()
    } else {
        let g = grouping(procs, self_pid, os, n - 1);
        let p = procs[n - 1];
        if p.pid == self_pid || critical(p.name@, os) || normalized(p.name@).len() == 0 {
            g
        } else {
            match find_group_from(g, normalized(p.name@), 0) {
                Some(i) => g.update(i, (g[i].0, g[i].1.push(n - 1))),
                None => g.push((p.name@, seq![n - 1])),
            }
        }
    }
}

/// A group of processes sharing a normalized name: the first one's name and
/// the members' positions in the snapshot.
pub struct Group {
    pub name: String,
    pub members: Vec<usize>,
}

pub open spec fn groups_view(v: Seq<Group>) -> Seq<(Seq<char>, Seq<int>)> {
    v.map_values(|g: Group| (g.name@, g.members@.map_values(|m: usize| m as int)))
}

fn find_group(groups: &Vec<Group>, key: &String) -> (r: Option<usize>)
    ensures
        match r {
            Some(i) => find_group_from(groups_view(groups@), key@, 0) == Some(i as int),
            None => find_group_from(groups_view(groups@), key@, 0) is None,
        },
        r matches Some(i) ==> i < groups@.len(),
{
    let ghost gv = groups_view(groups@);
    let mut i: usize = 0;
    while i < groups.len()
        invariant
            i <= groups@.len(),
            gv == groups_view(groups@),
            find_group_from(gv, key@, 0) == find_group_from(gv, key@, i as int),
        decreases groups.len() - i,
    {
        assert(gv[i as int].0 == groups@[i as int].name@);
        if normalize(groups[i].name.as_str()) == *key {
            return Some(i);
        }
        i = i + 1;
    }
    None
}

/// The processes of the snapshot grouped by normalized name.
fn group_by_name(snapshot: &Snapshot, self_pid: u32, os: Os) -> (groups: Vec<Group>)
    ensures
        groups_view(groups@) == grouping(snapshot.processes@, self_pid, os, snapshot.processes@.len() as int),
        forall|g: int, k: int| 0 <= g < groups@.len() && 0 <= k < groups@[g].members@.len() ==> #[trigger] groups@[g].members@[k] < snapshot.processes@.len(),
{
    let procs = &snapshot.processes;
    let mut groups: Vec<Group> = Vec::new();
    let mut n: usize = 0;
    assert(groups_view(groups@) =~= Seq::<(Seq<char>, Seq<int>)>::empty());
    while n < procs.len()
        invariant
            n <= procs@.len(),
            groups_view(groups@) == grouping(procs@, self_pid, os, n as int),
            forall|g: int, k: int| 0 <= g < groups@.len() && 0 <= k < groups@[g].members@.len() ==> #[trigger] groups@[g].members@[k] < n,
        decreases procs.len() - n,
    {
        let p = &procs[n];
        let ghost before = groups_view(groups@);
        if p.pid != self_pid && !is_critical(p.name.as_str(), os) {
            let key = normalize(p.name.as_str());
            if key.as_str().unicode_len() != 0 {
                match find_group(&groups, &key) {
                    Some(i) => {
                        let ghost old_groups = groups@;
                        let ghost old_members = groups@[i as int].members@;
                        groups[i].members.push(n);
                        assert(groups@[i as int].members@ == old_members.push(n));
                        assert(groups@[i as int].members@.map_values(|m: usize| m as int) =~= old_members.map_values(|m: usize| m as int).push(n as int));
                        assert(forall|g: int| 0 <= g < groups@.len() && g != i ==> groups@[g] == old_groups[g]);
                        assert(groups_view(groups@) =~= before.update(i as int, (before[i as int].0, before[i as int].1.push(n as int))));
                    },
                    None => {
                        let mut members: Vec<usize> = Vec::new();
                        members.push(n);
                        let name = crate::plan::copy_string(&p.name);
                        let ghost old_groups = groups@;
                        groups.push(Group { name, members });
                        assert(members@.map_values(|m: usize| m as int) =~= seq![n as int]);
                        assert(groups_view(groups@) =~= before.push((p.name@, seq![n as int])));
                    },
                }
            }
        }
        n = n + 1;
    }
    groups
}


pub const NO_WINDOW: &'static str = "large background process with no window";
pub const POWER_REASON: &'static str = "switch to the performance plan while quiet";
pub const CACHE_NAME: &'static str = "Cached memory";
pub const CACHE_REASON: &'static str = "file cache that a game or model load would otherwise have to evict";

/// `x`, or `u64::MAX` when it does not fit.
pub open spec fn capped(x: int) -> u64 {
    if x > u64::MAX {
        u64::MAX
    } else if x < 0 {
        0
    } else {
        x as u64
    }
}

pub open spec fn memory_total(procs: Seq<ProcessInfo>, members: Seq<int>) -> int
    decreases members.len(),
{
    if members.len() == 0 {
        0
    } else {
        memory_total(procs, members.drop_last()) + procs[members.last()].memory_bytes
    }
}

pub open spec fn cpu_total(procs: Seq<ProcessInfo>, members: Seq<int>) -> int
    decreases members.len(),
{
    if members.len() == 0 {
        0
    } else {
        cpu_total(procs, members.drop_last()) + procs[members.last()].cpu_millionths
    }
}

/// Some member of the group is named by `target`.
pub open spec fn member_matches(procs: Seq<ProcessInfo>, members: Seq<int>, target: Seq<char>) -> bool {
    exists|k: int| 0 <= k < members.len() && name_matches(target, procs[#[trigger] members[k]].name@, procs[members[k]].stem())
}

/// Some target of the profile (enabled or not) names a member of the group.
pub open spec fn group_targeted(profile: Profile, procs: Seq<ProcessInfo>, members: Seq<int>) -> bool {
    exists|j: int| 0 <= j < profile.processes@.len() && member_matches(procs, members, (#[trigger] profile.processes@[j]).name@)
}

/// Some keep-alive entry names a member of the group.
pub open spec fn group_kept(profile: Profile, procs: Seq<ProcessInfo>, members: Seq<int>) -> bool {
    exists|j: int| 0 <= j < profile.keep_alive@.len() && member_matches(procs, members, (#[trigger] profile.keep_alive@[j])@)
}

/// The first catalogue entry, from position `i` on, naming a member.
pub open spec fn first_known(known: Seq<(Seq<char>, Seq<char>, Risk)>, procs: Seq<ProcessInfo>, members: Seq<int>, i: int) -> Option<int>
    decreases known.len() - i,
{
    if i < 0 || i >= known.len() {
        None
    } else if member_matches(procs, members, known[i].0) {
        Some(i)
    } else {
        first_known(known, procs, members, i + 1)
    }
}

pub open spec fn group_has_window(activity: Activity, procs: Seq<ProcessInfo>, members: Seq<int>) -> bool {
    exists|k: int| 0 <= k < members.len() && activity.windowed_pids@.contains(procs[#[trigger] members[k]].pid)
}

pub open spec fn group_in_front(activity: Activity, procs: Seq<ProcessInfo>, members: Seq<int>) -> bool {
    exists|k: int| 0 <= k < members.len() && activity.foreground_pid == Some(procs[#[trigger] members[k]].pid)
}

/// What the scan says about one group of processes, if anything: a known
/// program with the catalogue's reason and risk, or (only when the platform
/// knows which programs own a window) a large windowless one of medium risk.
/// Groups the keep-alive list names are never mentioned.
pub open spec fn group_rec(profile: Profile, procs: Seq<ProcessInfo>, group: (Seq<char>, Seq<int>), activity: Activity, os: Os) -> Option<RecView> {
    let members = group.1;
    let memory = capped(memory_total(procs, members));
    let cpu = capped(cpu_total(procs, members));
    let known = catalogue::known_processes(os);
    if group_kept(profile, procs, members) {
        None
    } else {
        let found: Option<(Seq<char>, Risk)> = match first_known(known, procs, members, 0) {
            Some(i) => Some((known[i].1, known[i].2)),
            None => if !activity.known || group_has_window(activity, procs, members) || group_in_front(activity, procs, members)
                || (memory < HEAVY_MEMORY_BYTES && cpu < HEAVY_CPU_MILLIONTHS) {
                None
            } else {
                Some((NO_WINDOW@, Risk::Medium))
            },
        };
        match found {
            None => None,
            Some((reason, risk)) => Some(RecView {
                kind: RecommendationKind::Process { action: ProcessAction::Suspend },
                name: group.0,
                reason,
                risk,
                memory_bytes: memory,
                cpu_millionths: cpu,
                instances: members.len() as usize,
                already_targeted: group_targeted(profile, procs, members),
            }),
        }
    }
}

/// The process recommendations for `groups[..n]`, in group order.
pub open spec fn process_recs(profile: Profile, procs: Seq<ProcessInfo>, groups: Seq<(Seq<char>, Seq<int>)>, activity: Activity, os: Os, n: int) -> Seq<RecView>
    decreases n,
{
    if n <= 0 || n > groups.len() {
        Seq::empty()
    } else {
        let r = process_recs(profile, procs, groups, activity, os, n - 1);
        match group_rec(profile, procs, groups[n - 1], activity, os) {
            Some(x) => r.push(x),
            None => r,
        }
    }
}

/// Whether target `target` names some member.
fn members_match(procs: &Vec<ProcessInfo>, members: &Vec<usize>, target: &str) -> (r: bool)
    requires
        forall|k: int| 0 <= k < members@.len() ==> #[trigger] members@[k] < procs@.len(),
    ensures
        r == member_matches(procs@, members@.map_values(|m: usize| m as int), target@),
{
    let ghost ms = members@.map_values(|m: usize| m as int);
    let mut k: usize = 0;
    while k < members.len()
        invariant
            k <= members@.len(),
            ms == members@.map_values(|m: usize| m as int),
            forall|q: int| 0 <= q < members@.len() ==> #[trigger] members@[q] < procs@.len(),
            forall|q: int| 0 <= q < k ==> !name_matches(target@, procs@[#[trigger] ms[q]].name@, procs@[ms[q]].stem()),
        decreases members.len() - k,
    {
        let p = &procs[members[k]];
        assert(ms[k as int] == members@[k as int] as int);
        let stem = p.exe_stem();
        let hit = match &stem {
            Some(s) => crate::policy::matches(target, p.name.as_str(), Some(s.as_str())),
            None => crate::policy::matches(target, p.name.as_str(), None),
        };
        if hit {
            return true;
        }
        k = k + 1;
    }
    false
}

/// The process recommendations, group by group.
fn recommend_processes(profile: &Profile, snapshot: &Snapshot, activity: &Activity, self_pid: u32, os: Os, out: &mut Vec<Recommendation>)
    ensures
        recs_view(final(out)@) == recs_view(old(out)@) + process_recs(
            *profile,
            snapshot.processes@,
            grouping(snapshot.processes@, self_pid, os, snapshot.processes@.len() as int),
            *activity,
            os,
            grouping(snapshot.processes@, self_pid, os, snapshot.processes@.len() as int).len() as int,
        ),
{
    let procs = &snapshot.processes;
    let groups = group_by_name(snapshot, self_pid, os);
    let ghost gv = groups_view(groups@);
    let known = catalogue::processes(os);
    let ghost out0 = recs_view(out@);
    let mut g: usize = 0;
    assert(out0 + Seq::<RecView>::empty() =~= out0);
    while g < groups.len()
        invariant
            g <= groups@.len(),
            gv == groups_view(groups@),
            gv == grouping(procs@, self_pid, os, procs@.len() as int),
            catalogue::process_entries(known@) == catalogue::known_processes(os),
            forall|a: int, k: int| 0 <= a < groups@.len() && 0 <= k < groups@[a].members@.len() ==> #[trigger] groups@[a].members@[k] < procs@.len(),
            recs_view(out@) == out0 + process_recs(*profile, procs@, gv, *activity, os, g as int),
        decreases groups.len() - g,
    {
        let group = &groups[g];
        let members = &group.members;
        let ghost ms = members@.map_values(|m: usize| m as int);
        assert(gv[g as int] == (group.name@, ms));
        assert(forall|k: int| 0 <= k < members@.len() ==> #[trigger] members@[k] < procs@.len());
        let ghost before = recs_view(out@);
        // Is the group on the keep-alive list?
        let mut kept = false;
        let mut j: usize = 0;
        while j < profile.keep_alive.len()
            invariant
                j <= profile.keep_alive@.len(),
                forall|k: int| 0 <= k < members@.len() ==> #[trigger] members@[k] < procs@.len(),
                ms == members@.map_values(|m: usize| m as int),
                kept == exists|q: int| 0 <= q < j && member_matches(procs@, ms, (#[trigger] profile.keep_alive@[q])@),
            decreases profile.keep_alive.len() - j,
        {
            if members_match(procs, members, profile.keep_alive[j].as_str()) {
                kept = true;
            }
            j = j + 1;
        }
        if !kept {
            // Sums over the instances.
            let mut memory: u64 = 0;
            let mut cpu: u64 = 0;
            let mut k: usize = 0;
            while k < members.len()
                invariant
                    k <= members@.len(),
                    forall|q: int| 0 <= q < members@.len() ==> #[trigger] members@[q] < procs@.len(),
                    ms == members@.map_values(|m: usize| m as int),
                    memory == capped(memory_total(procs@, ms.take(k as int))),
                    cpu == capped(cpu_total(procs@, ms.take(k as int))),
                    memory_total(procs@, ms.take(k as int)) >= 0,
                    cpu_total(procs@, ms.take(k as int)) >= 0,
                decreases members.len() - k,
            {
                let p = &procs[members[k]];
                assert(ms.take(k + 1).drop_last() =~= ms.take(k as int));
                assert(ms.take(k + 1).last() == members@[k as int] as int);
                memory = memory.saturating_add(p.memory_bytes);
                cpu = cpu.saturating_add(p.cpu_millionths as u64);
                k = k + 1;
            }
            assert(ms.take(members@.len() as int) =~= ms);
            // The catalogue's verdict, if it knows the program.
            let mut found: Option<usize> = None;
            let mut c: usize = known.len();
            while c > 0
                invariant
                    c <= known@.len(),
                    catalogue::process_entries(known@) == catalogue::known_processes(os),
                    forall|q: int| 0 <= q < members@.len() ==> #[trigger] members@[q] < procs@.len(),
                    ms == members@.map_values(|m: usize| m as int),
                    match found {
                        Some(i) => i < known@.len() && first_known(catalogue::known_processes(os), procs@, ms, c as int) == Some(i as int),
                        None => first_known(catalogue::known_processes(os), procs@, ms, c as int) is None,
                    },
                decreases c,
            {
                c = c - 1;
                let entry = &known[c];
                assert(catalogue::known_processes(os)[c as int].0 == entry.name@);
                if members_match(procs, members, entry.name) {
                    found = Some(c);
                }
            }
            let verdict: Option<(String, Risk)> = match found {
                Some(i) => {
                    assert(catalogue::known_processes(os)[i as int].1 == known@[i as int].reason@);
                    Some((String::from_str(known[i].reason), known[i].risk))
                },
                None => {
                    let mut windowed = false;
                    let mut front = false;
                    let mut w: usize = 0;
                    while w < members.len()
                        invariant
                            w <= members@.len(),
                            forall|q: int| 0 <= q < members@.len() ==> #[trigger] members@[q] < procs@.len(),
                            ms == members@.map_values(|m: usize| m as int),
                            windowed == exists|q: int| 0 <= q < w && activity.windowed_pids@.contains(procs@[#[trigger] ms[q]].pid),
                            front == exists|q: int| 0 <= q < w && activity.foreground_pid == Some(procs@[#[trigger] ms[q]].pid),
                        decreases members.len() - w,
                    {
                        let pid = procs[members[w]].pid;
                        assert(ms[w as int] == members@[w as int] as int);
                        if contains_pid(&activity.windowed_pids, pid) {
                            windowed = true;
                        }
                        if activity.foreground_pid == Some(pid) {
                            front = true;
                        }
                        w = w + 1;
                    }
                    if !activity.known || windowed || front || (memory < HEAVY_MEMORY_BYTES && cpu < HEAVY_CPU_MILLIONTHS) {
                        None
                    } else {
                        Some((String::from_str(NO_WINDOW), Risk::Medium))
                    }
                },
            };
            if let Some((reason, risk)) = verdict {
                let mut targeted = false;
                let mut t: usize = 0;
                while t < profile.processes.len()
                    invariant
                        t <= profile.processes@.len(),
                        forall|q: int| 0 <= q < members@.len() ==> #[trigger] members@[q] < procs@.len(),
                        ms == members@.map_values(|m: usize| m as int),
                        targeted == exists|q: int| 0 <= q < t && member_matches(procs@, ms, (#[trigger] profile.processes@[q]).name@),
                    decreases profile.processes.len() - t,
                {
                    if members_match(procs, members, profile.processes[t].name.as_str()) {
                        targeted = true;
                    }
                    t = t + 1;
                }
                let rec = Recommendation {
                    kind: RecommendationKind::Process { action: ProcessAction::Suspend },
                    name: group.name.clone(),
                    reason,
                    risk,
                    memory_bytes: memory,
                    cpu_millionths: cpu,
                    instances: members.len(),
                    already_targeted: targeted,
                };
                out.push(rec);
                assert(recs_view(out@) =~= before.push(rec@));
            }
        }
        assert(out0 + process_recs(*profile, procs@, gv, *activity, os, g as int) =~= before);
        g = g + 1;
    }
}


/// The first service, from position `i` on, called `name` (ASCII case ignored).
pub open spec fn first_named(services: Seq<ServiceInfo>, name: Seq<char>, i: int) -> Option<int>
    decreases services.len() - i,
{
    if i < 0 || i >= services.len() {
        None
    } else if eq_ignore_case(services[i].name@, name) {
        Some(i)
    } else {
        first_named(services, name, i + 1)
    }
}

/// What the scan says about one catalogue service: worth stopping when the
/// snapshot shows it running.
pub open spec fn service_rec(profile: Profile, services: Seq<ServiceInfo>, known: (Seq<char>, Seq<char>, Risk)) -> Option<RecView> {
    match first_named(services, known.0, 0) {
        None => None,
        Some(i) => if services[i].state != ServiceState::Running {
            None
        } else {
            Some(RecView {
                kind: RecommendationKind::Service,
                name: services[i].name@,
                reason: known.1,
                risk: known.2,
                memory_bytes: 0,
                cpu_millionths: 0,
                instances: 1,
                already_targeted: exists|j: int| 0 <= j < profile.services@.len() && eq_ignore_case(#[trigger] profile.services@[j].name@, services[i].name@),
            })
        },
    }
}

/// The service recommendations for `known[..n]`, in catalogue order.
pub open spec fn service_recs(profile: Profile, services: Seq<ServiceInfo>, known: Seq<(Seq<char>, Seq<char>, Risk)>, n: int) -> Seq<RecView>
    decreases n,
{
    if n <= 0 || n > known.len() {
        Seq::empty()
    } else {
        let r = service_recs(profile, services, known, n - 1);
        match service_rec(profile, services, known[n - 1]) {
            Some(x) => r.push(x),
            None => r,
        }
    }
}

/// The power plan recommendation: when the platform can switch plans and the
/// active one is not already a performance plan.
pub open spec fn power_rec(profile: Profile, snapshot: Snapshot, caps: Capabilities) -> Seq<RecView> {
    match snapshot.power_plan {
        Some(plan) => if caps.power && !performance_plan(plan.id@, plan.name@) {
            seq![RecView {
                kind: RecommendationKind::PowerPlan,
                name: "Power plan: "@ + plan.name@,
                reason: POWER_REASON@,
                risk: Risk::Low,
                memory_bytes: 0,
                cpu_millionths: 0,
                instances: 1,
                already_targeted: profile.power == PowerPolicy::Performance,
            }]
        } else {
            Seq::empty()
        },
        None => Seq::empty(),
    }
}

/// The file cache: what is available beyond what is free.
pub open spec fn cached_bytes(stats: SystemStats) -> u64 {
    if stats.memory_available >= stats.memory_free {
        (stats.memory_available - stats.memory_free) as u64
    } else {
        0
    }
}

/// The purge recommendation: when the platform can purge and the cache is
/// large.
pub open spec fn purge_rec(profile: Profile, stats: SystemStats, caps: Capabilities) -> Seq<RecView> {
    if caps.memory_purge && cached_bytes(stats) >= CACHE_WORTH_PURGING {
        seq![RecView {
            kind: RecommendationKind::MemoryPurge,
            name: CACHE_NAME@,
            reason: CACHE_REASON@,
            risk: Risk::Low,
            memory_bytes: cached_bytes(stats),
            cpu_millionths: 0,
            instances: 1,
            already_targeted: profile.purge_memory,
        }]
    } else {
        Seq::empty()
    }
}

/// Lexicographic order of code points, the order of `String`'s `cmp`.
pub open spec fn lex_le(a: Seq<char>, b: Seq<char>) -> bool
    decreases a.len(),
{
    if a.len() == 0 {
        true
    } else if b.len() == 0 {
        false
    } else if a[0] < b[0] {
        true
    } else if a[0] == b[0] {
        lex_le(a.drop_first(), b.drop_first())
    } else {
        false
    }
}

/// Safest first, then biggest, then by name.
pub open spec fn rec_le(a: RecView, b: RecView) -> bool {
    ||| risk_rank(a.risk) < risk_rank(b.risk)
    ||| (risk_rank(a.risk) == risk_rank(b.risk) && a.memory_bytes > b.memory_bytes)
    ||| (risk_rank(a.risk) == risk_rank(b.risk) && a.memory_bytes == b.memory_bytes && lex_le(a.name, b.name))
}

/// Where a stable sort puts `x` among the sorted `s`: after every element
/// that does not come after it.
pub open spec fn insert_at(s: Seq<RecView>, x: RecView, i: int) -> int
    decreases s.len() - i,
{
    if i < 0 {
        0
    } else if i >= s.len() {
        s.len() as int
    } else if !rec_le(s[i], x) {
        i
    } else {
        insert_at(s, x, i + 1)
    }
}

/// The stable sort of `s` by `rec_le`, as insertion builds it.
pub open spec fn sorted_recs(s: Seq<RecView>) -> Seq<RecView>
    decreases s.len(),
{
    if s.len() == 0 {
        s
    } else {
        let t = sorted_recs(s.drop_last());
        t.insert(insert_at(t, s.last(), 0), s.last())
    }
}

/// Everything the scan recommends, safest first, then biggest.
pub open spec fn recommended(profile: Profile, snapshot: Snapshot, stats: SystemStats, activity: Activity, self_pid: u32, os: Os, caps: Capabilities) -> Seq<RecView> {
    let groups = grouping(snapshot.processes@, self_pid, os, snapshot.processes@.len() as int);
    let procs = process_recs(profile, snapshot.processes@, groups, activity, os, groups.len() as int);
    let known = known_services(os);
    let services = if caps.services {
        service_recs(profile, snapshot.services@, known, known.len() as int)
    } else {
        Seq::empty()
    };
    sorted_recs(procs + services + power_rec(profile, snapshot, caps) + purge_rec(profile, stats, caps))
}

pub(crate) fn lex_le_str(a: &str, b: &str) -> (r: bool)
    ensures
        r == lex_le(a@, b@),
{
    let x = crate::text::chars_of(a);
    let y = crate::text::chars_of(b);
    let mut i: usize = 0;
    assert(x@.skip(0) =~= x@);
    assert(y@.skip(0) =~= y@);
    while i < x.len() && i < y.len() && x[i] == y[i]
        invariant
            i <= x@.len(),
            i <= y@.len(),
            lex_le(a@, b@) == lex_le(x@.skip(i as int), y@.skip(i as int)),
            x@ == a@,
            y@ == b@,
        decreases x.len() - i,
    {
        assert(x@.skip(i as int).drop_first() =~= x@.skip(i + 1));
        assert(y@.skip(i as int).drop_first() =~= y@.skip(i + 1));
        i = i + 1;
    }
    if i == x.len() {
        true
    } else if i == y.len() {
        false
    } else {
        assert(x@.skip(i as int)[0] == x@[i as int]);
        assert(y@.skip(i as int)[0] == y@[i as int]);
        x[i] < y[i]
    }
}

fn rec_le_exec(a: &Recommendation, b: &Recommendation) -> (r: bool)
    ensures
        r == rec_le(a@, b@),
{
    let ra = catalogue::rank_of(a.risk);
    let rb = catalogue::rank_of(b.risk);
    ra < rb || (ra == rb && a.memory_bytes > b.memory_bytes) || (ra == rb && a.memory_bytes == b.memory_bytes && lex_le_str(a.name.as_str(), b.name.as_str()))
}

/// Sorts by `rec_le`, keeping the order of equal items.
fn sort_recs(items: Vec<Recommendation>) -> (r: Vec<Recommendation>)
    ensures
        recs_view(r@) == sorted_recs(recs_view(items@)),
{
    let ghost all = recs_view(items@);
    let mut out: Vec<Recommendation> = Vec::new();
    let mut n: usize = 0;
    assert(all.take(0) =~= Seq::<RecView>::empty());
    assert(recs_view(out@) =~= Seq::<RecView>::empty());
    while n < items.len()
        invariant
            n <= items@.len(),
            all == recs_view(items@),
            recs_view(out@) == sorted_recs(all.take(n as int)),
        decreases items.len() - n,
    {
        let x = items[n].copy();
        let ghost sorted = recs_view(out@);
        assert(all.take(n + 1).drop_last() =~= all.take(n as int));
        assert(all.take(n + 1).last() == x@);
        let mut pos: usize = 0;
        while pos < out.len() && rec_le_exec(&out[pos], &x)
            invariant
                pos <= out@.len(),
                sorted == recs_view(out@),
                insert_at(sorted, x@, 0) == insert_at(sorted, x@, pos as int),
            decreases out.len() - pos,
        {
            pos = pos + 1;
        }
        out.insert(pos, x);
        assert(recs_view(out@) =~= sorted.insert(pos as int, x@));
        n = n + 1;
    }
    assert(all.take(items@.len() as int) =~= all);
    out
}


fn find_named(services: &Vec<ServiceInfo>, name: &str) -> (r: Option<usize>)
    ensures
        match r {
            Some(i) => i < services@.len() && first_named(services@, name@, 0) == Some(i as int),
            None => first_named(services@, name@, 0) is None,
        },
{
    let mut i: usize = 0;
    while i < services.len()
        invariant
            i <= services@.len(),
            first_named(services@, name@, 0) == first_named(services@, name@, i as int),
        decreases services.len() - i,
    {
        if eq_ignore_case_str(services[i].name.as_str(), name) {
            return Some(i);
        }
        i = i + 1;
    }
    None
}

fn recommend_services(profile: &Profile, snapshot: &Snapshot, os: Os, caps: &Capabilities, out: &mut Vec<Recommendation>)
    ensures
        recs_view(final(out)@) == recs_view(old(out)@) + if caps.services {
            service_recs(*profile, snapshot.services@, known_services(os), known_services(os).len() as int)
        } else {
            Seq::empty()
        },
{
    let ghost out0 = recs_view(out@);
    if !caps.services {
        assert(out0 + Seq::<RecView>::empty() =~= out0);
        return;
    }
    let known = catalogue::services(os);
    let ghost entries = known_services(os);
    let mut c: usize = 0;
    assert(out0 + Seq::<RecView>::empty() =~= out0);
    while c < known.len()
        invariant
            c <= known@.len(),
            entries == known_services(os),
            catalogue::service_entries(known@) == entries,
            recs_view(out@) == out0 + service_recs(*profile, snapshot.services@, entries, c as int),
        decreases known.len() - c,
    {
        let k = &known[c];
        assert(entries[c as int] == (k.name@, k.reason@, k.risk));
        let ghost before = recs_view(out@);
        if let Some(i) = find_named(&snapshot.services, k.name) {
            let service = &snapshot.services[i];
            if service.state == ServiceState::Running {
                let already = has_service_target(&profile.services, &service.name);
                let rec = Recommendation {
                    kind: RecommendationKind::Service,
                    name: service.name.clone(),
                    reason: String::from_str(k.reason),
                    risk: k.risk,
                    memory_bytes: 0,
                    cpu_millionths: 0,
                    instances: 1,
                    already_targeted: already,
                };
                out.push(rec);
                assert(recs_view(out@) =~= before.push(rec@));
            }
        }
        c = c + 1;
    }
}

pub fn recommend(
    profile: &Profile,
    snapshot: &Snapshot,
    stats: &SystemStats,
    activity: &Activity,
    self_pid: u32,
    os: Os,
    caps: &Capabilities,
) -> (r: Vec<Recommendation>)
    ensures
        recs_view(r@) == recommended(*profile, *snapshot, *stats, *activity, self_pid, os, *caps),
{
    let mut out: Vec<Recommendation> = Vec::new();
    assert(recs_view(out@) =~= Seq::<RecView>::empty());
    recommend_processes(profile, snapshot, activity, self_pid, os, &mut out);
    recommend_services(profile, snapshot, os, caps, &mut out);
    let ghost mid = recs_view(out@);
    if caps.power {
        if let Some(plan) = &snapshot.power_plan {
            if !is_performance_plan(plan.id.as_str(), plan.name.as_str()) {
                let mut name = String::from_str("Power plan: ");
                name.append(plan.name.as_str());
                let rec = Recommendation {
                    kind: RecommendationKind::PowerPlan,
                    name,
                    reason: String::from_str(POWER_REASON),
                    risk: Risk::Low,
                    memory_bytes: 0,
                    cpu_millionths: 0,
                    instances: 1,
                    already_targeted: profile.power == PowerPolicy::Performance,
                };
                out.push(rec);
            }
        }
    }
    assert(recs_view(out@) =~= mid + power_rec(*profile, *snapshot, *caps));
    let ghost mid2 = recs_view(out@);
    let cached = stats.memory_available.saturating_sub(stats.memory_free);
    if caps.memory_purge && cached >= CACHE_WORTH_PURGING {
        let rec = Recommendation {
            kind: RecommendationKind::MemoryPurge,
            name: String::from_str(CACHE_NAME),
            reason: String::from_str(CACHE_REASON),
            risk: Risk::Low,
            memory_bytes: cached,
            cpu_millionths: 0,
            instances: 1,
            already_targeted: profile.purge_memory,
        };
        out.push(rec);
    }
    assert(recs_view(out@) =~= mid2 + purge_rec(*profile, *stats, *caps));
    sort_recs(out)
}


pub(crate) proof fn lemma_lex_total(a: Seq<char>, b: Seq<char>)
    ensures
        lex_le(a, b) || lex_le(b, a),
    decreases a.len(),
{
    if a.len() > 0 && b.len() > 0 && a[0] == b[0] {
        lemma_lex_total(a.drop_first(), b.drop_first());
    }
}

pub(crate) proof fn lemma_lex_trans(a: Seq<char>, b: Seq<char>, c: Seq<char>)
    requires
        lex_le(a, b),
        lex_le(b, c),
    ensures
        lex_le(a, c),
    decreases a.len(),
{
    if a.len() > 0 && b.len() > 0 && c.len() > 0 && a[0] == b[0] && b[0] == c[0] {
        lemma_lex_trans(a.drop_first(), b.drop_first(), c.drop_first());
    }
}

proof fn lemma_rec_le_total(a: RecView, b: RecView)
    ensures
        rec_le(a, b) || rec_le(b, a),
{
    lemma_lex_total(a.name, b.name);
}

proof fn lemma_rec_le_trans(a: RecView, b: RecView, c: RecView)
    requires
        rec_le(a, b),
        rec_le(b, c),
    ensures
        rec_le(a, c),
{
    if risk_rank(a.risk) == risk_rank(b.risk) && risk_rank(b.risk) == risk_rank(c.risk)
        && a.memory_bytes == b.memory_bytes && b.memory_bytes == c.memory_bytes {
        lemma_lex_trans(a.name, b.name, c.name);
    }
}

pub open spec fn recs_sorted(s: Seq<RecView>) -> bool {
    forall|i: int, j: int| 0 <= i < j < s.len() ==> rec_le(s[i], s[j])
}

proof fn lemma_insert_at(s: Seq<RecView>, x: RecView, i: int)
    requires
        0 <= i <= s.len(),
        forall|k: int| 0 <= k < i ==> rec_le(s[k], x),
    ensures
        i <= insert_at(s, x, i) <= s.len(),
        forall|k: int| 0 <= k < insert_at(s, x, i) ==> rec_le(s[k], x),
        insert_at(s, x, i) < s.len() ==> !rec_le(s[insert_at(s, x, i)], x),
    decreases s.len() - i,
{
    if i < s.len() && rec_le(s[i], x) {
        lemma_insert_at(s, x, i + 1);
    }
}

proof fn lemma_sorted_recs(s: Seq<RecView>)
    ensures
        recs_sorted(sorted_recs(s)),
        sorted_recs(s).to_multiset() == s.to_multiset(),
        sorted_recs(s).len() == s.len(),
    decreases s.len(),
{
    broadcast use vstd::seq_lib::to_multiset_insert, vstd::seq_lib::to_multiset_build;
    if s.len() > 0 {
        let t = sorted_recs(s.drop_last());
        let x = s.last();
        lemma_sorted_recs(s.drop_last());
        lemma_insert_at(t, x, 0);
        let p = insert_at(t, x, 0);
        let r = t.insert(p, x);
        assert(s.drop_last().push(x) =~= s);
        assert forall|i: int, j: int| 0 <= i < j < r.len() implies rec_le(r[i], r[j]) by {
            if j < p {
                assert(r[i] == t[i] && r[j] == t[j]);
            } else if j == p {
                assert(r[i] == t[i]);
            } else if i == p {
                assert(r[j] == t[j - 1]);
                lemma_rec_le_total(t[p], x);
                if j - 1 > p {
                    lemma_rec_le_trans(x, t[p], t[j - 1]);
                }
            } else if i < p {
                assert(r[i] == t[i] && r[j] == t[j - 1]);
            } else {
                assert(r[i] == t[i - 1] && r[j] == t[j - 1]);
            }
        }
    }
}

/// What the scan promises for any machine: the list is ordered safest
/// first, then biggest, then by name; it holds exactly the process, service,
/// power and purge finds; and no process find names a group with this app, a
/// critical process or a kept-alive program in it, nor (unless the catalogue
/// knows the program) one that owns a window or is in front.
pub proof fn lemma_recommendations(profile: Profile, snapshot: Snapshot, stats: SystemStats, activity: Activity, self_pid: u32, os: Os, caps: Capabilities)
    ensures
        recs_sorted(recommended(profile, snapshot, stats, activity, self_pid, os, caps)),
        ({
            let groups = grouping(snapshot.processes@, self_pid, os, snapshot.processes@.len() as int);
            let procs = process_recs(profile, snapshot.processes@, groups, activity, os, groups.len() as int);
            let known = known_services(os);
            let services = if caps.services {
                service_recs(profile, snapshot.services@, known, known.len() as int)
            } else {
                Seq::empty()
            };
            &&& recommended(profile, snapshot, stats, activity, self_pid, os, caps).to_multiset() == (procs + services + power_rec(profile, snapshot, caps) + purge_rec(profile, stats, caps)).to_multiset()
            &&& forall|g: int, k: int| 0 <= g < groups.len() && 0 <= k < groups[g].1.len() ==> {
                let p = snapshot.processes@[#[trigger] groups[g].1[k]];
                &&& 0 <= groups[g].1[k] < snapshot.processes@.len()
                &&& p.pid != self_pid
                &&& !critical(p.name@, os)
            }
            &&& forall|k: int| #![trigger procs[k]] 0 <= k < procs.len() ==> exists|g: int| #![trigger groups[g]] 0 <= g < groups.len() && {
                let members = groups[g].1;
                &&& procs[k].name == groups[g].0
                &&& !group_kept(profile, snapshot.processes@, members)
                &&& (first_known(catalogue::known_processes(os), snapshot.processes@, members, 0) is None ==> {
                    &&& activity.known
                    &&& !group_has_window(activity, snapshot.processes@, members)
                    &&& !group_in_front(activity, snapshot.processes@, members)
                })
            }
        }),
{
    let groups = grouping(snapshot.processes@, self_pid, os, snapshot.processes@.len() as int);
    let procs = process_recs(profile, snapshot.processes@, groups, activity, os, groups.len() as int);
    let known = known_services(os);
    let services = if caps.services {
        service_recs(profile, snapshot.services@, known, known.len() as int)
    } else {
        Seq::empty()
    };
    lemma_sorted_recs(procs + services + power_rec(profile, snapshot, caps) + purge_rec(profile, stats, caps));
    lemma_grouping(snapshot.processes@, self_pid, os, snapshot.processes@.len() as int);
    lemma_process_recs(profile, snapshot.processes@, groups, activity, os, groups.len() as int);
}

proof fn lemma_grouping(procs: Seq<ProcessInfo>, self_pid: u32, os: Os, n: int)
    requires
        0 <= n <= procs.len(),
    ensures
        forall|g: int, k: int| 0 <= g < grouping(procs, self_pid, os, n).len() && 0 <= k < grouping(procs, self_pid, os, n)[g].1.len() ==> {
            let m = #[trigger] grouping(procs, self_pid, os, n)[g].1[k];
            &&& 0 <= m < n
            &&& procs[m].pid != self_pid
            &&& !critical(procs[m].name@, os)
        },
    decreases n,
{
    if n > 0 {
        lemma_grouping(procs, self_pid, os, n - 1);
        let g0 = grouping(procs, self_pid, os, n - 1);
        let p = procs[n - 1];
        if !(p.pid == self_pid || critical(p.name@, os) || normalized(p.name@).len() == 0) {
            lemma_find_group_range(g0, normalized(p.name@), 0);
            let gn = grouping(procs, self_pid, os, n);
            assert forall|g: int, k: int| 0 <= g < gn.len() && 0 <= k < gn[g].1.len() implies {
                let m = #[trigger] gn[g].1[k];
                &&& 0 <= m < n
                &&& procs[m].pid != self_pid
                &&& !critical(procs[m].name@, os)
            } by {
                match find_group_from(g0, normalized(p.name@), 0) {
                    Some(i) => {
                        if g == i && k == g0[i].1.len() {
                        } else if g == i {
                            assert(gn[g].1[k] == g0[g].1[k]);
                        } else {
                            assert(gn[g] == g0[g]);
                        }
                    },
                    None => {
                        if g < g0.len() {
                            assert(gn[g] == g0[g]);
                        }
                    },
                }
            }
        }
    }
}

proof fn lemma_find_group_range(groups: Seq<(Seq<char>, Seq<int>)>, key: Seq<char>, i: int)
    ensures
        find_group_from(groups, key, i) matches Some(j) ==> 0 <= i <= j < groups.len(),
    decreases groups.len() - i,
{
    if 0 <= i < groups.len() && normalized(groups[i].0) != key {
        lemma_find_group_range(groups, key, i + 1);
    }
}

proof fn lemma_process_recs(profile: Profile, procs: Seq<ProcessInfo>, groups: Seq<(Seq<char>, Seq<int>)>, activity: Activity, os: Os, n: int)
    requires
        0 <= n <= groups.len(),
    ensures
        forall|k: int| #![trigger process_recs(profile, procs, groups, activity, os, n)[k]] 0 <= k < process_recs(profile, procs, groups, activity, os, n).len() ==> exists|g: int| #![trigger groups[g]] 0 <= g < n && {
            let members = groups[g].1;
            &&& process_recs(profile, procs, groups, activity, os, n)[k].name == groups[g].0
            &&& !group_kept(profile, procs, members)
            &&& (first_known(catalogue::known_processes(os), procs, members, 0) is None ==> {
                &&& activity.known
                &&& !group_has_window(activity, procs, members)
                &&& !group_in_front(activity, procs, members)
            })
        },
    decreases n,
{
    if n > 0 {
        lemma_process_recs(profile, procs, groups, activity, os, n - 1);
        let r0 = process_recs(profile, procs, groups, activity, os, n - 1);
        let r = process_recs(profile, procs, groups, activity, os, n);
        assert forall|k: int| #![trigger r[k]] 0 <= k < r.len() implies exists|g: int| #![trigger groups[g]] 0 <= g < n && {
            let members = groups[g].1;
            &&& r[k].name == groups[g].0
            &&& !group_kept(profile, procs, members)
            &&& (first_known(catalogue::known_processes(os), procs, members, 0) is None ==> {
                &&& activity.known
                &&& !group_has_window(activity, procs, members)
                &&& !group_in_front(activity, procs, members)
            })
        } by {
            if k < r0.len() {
                assert(r[k] == r0[k]);
                let g = choose|g: int| #![trigger groups[g]] 0 <= g < n - 1 && {
                    let members = groups[g].1;
                    &&& r0[k].name == groups[g].0
                    &&& !group_kept(profile, procs, members)
                    &&& (first_known(catalogue::known_processes(os), procs, members, 0) is None ==> {
                        &&& activity.known
                        &&& !group_has_window(activity, procs, members)
                        &&& !group_in_front(activity, procs, members)
                    })
                };
            } else {
                assert(r[k].name == groups[n - 1].0);
            }
        }
    }
}


/// The sum of a sequence of numbers.
pub open spec fn sum_of(s: Seq<int>) -> int {
    s.fold_left(0int, |acc: int, x: int| acc + x)
}

/// The total memory of the processes at `members`, as a plain sum.
pub open spec fn members_memory(procs: Seq<ProcessInfo>, members: Seq<int>) -> int {
    sum_of(members.map_values(|m: int| procs[m].memory_bytes as int))
}

/// The total CPU use of the processes at `members`, as a plain sum.
pub open spec fn members_cpu(procs: Seq<ProcessInfo>, members: Seq<int>) -> int {
    sum_of(members.map_values(|m: int| procs[m].cpu_millionths as int))
}

proof fn lemma_totals_are_sums(procs: Seq<ProcessInfo>, members: Seq<int>)
    ensures
        memory_total(procs, members) == members_memory(procs, members),
        cpu_total(procs, members) == members_cpu(procs, members),
        memory_total(procs, members) >= 0,
        cpu_total(procs, members) >= 0,
    decreases members.len(),
{
    if members.len() > 0 {
        lemma_totals_are_sums(procs, members.drop_last());
        let fm = |m: int| procs[m].memory_bytes as int;
        let fc = |m: int| procs[m].cpu_millionths as int;
        assert(members.map_values(fm).drop_last() =~= members.drop_last().map_values(fm));
        assert(members.map_values(fc).drop_last() =~= members.drop_last().map_values(fc));
    }
}

proof fn lemma_process_recs_come_from_groups(profile: Profile, procs: Seq<ProcessInfo>, groups: Seq<(Seq<char>, Seq<int>)>, activity: Activity, os: Os, n: int)
    requires
        0 <= n <= groups.len(),
    ensures
        forall|k: int| #![trigger process_recs(profile, procs, groups, activity, os, n)[k]] 0 <= k < process_recs(profile, procs, groups, activity, os, n).len() ==> exists|g: int|
            0 <= g < n && group_rec(profile, procs, #[trigger] groups[g], activity, os) == Some(process_recs(profile, procs, groups, activity, os, n)[k]),
    decreases n,
{
    if n > 0 {
        lemma_process_recs_come_from_groups(profile, procs, groups, activity, os, n - 1);
        let r0 = process_recs(profile, procs, groups, activity, os, n - 1);
        let r = process_recs(profile, procs, groups, activity, os, n);
        assert forall|k: int| #![trigger r[k]] 0 <= k < r.len() implies exists|g: int|
            0 <= g < n && group_rec(profile, procs, #[trigger] groups[g], activity, os) == Some(r[k]) by {
            if k < r0.len() {
                assert(r[k] == r0[k]);
                let g = choose|g: int| 0 <= g < n - 1 && group_rec(profile, procs, #[trigger] groups[g], activity, os) == Some(r0[k]);
                assert(group_rec(profile, procs, groups[g], activity, os) == Some(r[k]));
            } else {
                assert(group_rec(profile, procs, groups[n - 1], activity, os) == Some(r[k]));
            }
        }
    }
}

proof fn lemma_service_recs_are_services(profile: Profile, services: Seq<ServiceInfo>, known: Seq<(Seq<char>, Seq<char>, Risk)>, n: int)
    ensures
        forall|k: int| 0 <= k < service_recs(profile, services, known, n).len() ==> (#[trigger] service_recs(profile, services, known, n)[k]).kind is Service,
    decreases n,
{
    if n > 0 && n <= known.len() {
        lemma_service_recs_are_services(profile, services, known, n - 1);
        let r0 = service_recs(profile, services, known, n - 1);
        let r = service_recs(profile, services, known, n);
        assert forall|k: int| 0 <= k < r.len() implies (#[trigger] r[k]).kind is Service by {
            if k < r0.len() {
                assert(r[k] == r0[k]);
            }
        }
    }
}

/// Every process find of a scan stands for one group of processes (all
/// instances of one program), and reports the group's size: its memory and
/// its CPU use are the sums over every instance of the group (held at the
/// largest `u64` should a sum not fit), and its instance count is the
/// group's size.
pub proof fn lemma_process_finds_add_up_their_instances(profile: Profile, snapshot: Snapshot, stats: SystemStats, activity: Activity, self_pid: u32, os: Os, caps: Capabilities)
    ensures
        ({
            let procs = snapshot.processes@;
            let groups = grouping(procs, self_pid, os, procs.len() as int);
            let recs = recommended(profile, snapshot, stats, activity, self_pid, os, caps);
            forall|i: int| 0 <= i < recs.len() && (#[trigger] recs[i]).kind is Process ==> exists|g: int| #![trigger groups[g]] 0 <= g < groups.len() && {
                let members = groups[g].1;
                let memory = members_memory(procs, members);
                let cpu = members_cpu(procs, members);
                &&& recs[i].name == groups[g].0
                &&& recs[i].instances == members.len() as usize
                &&& (memory <= u64::MAX ==> recs[i].memory_bytes == memory)
                &&& (memory > u64::MAX ==> recs[i].memory_bytes == u64::MAX)
                &&& (cpu <= u64::MAX ==> recs[i].cpu_millionths == cpu)
                &&& (cpu > u64::MAX ==> recs[i].cpu_millionths == u64::MAX)
            }
        }),
{
    broadcast use vstd::seq_lib::to_multiset_contains;
    let procs = snapshot.processes@;
    let groups = grouping(procs, self_pid, os, procs.len() as int);
    let precs = process_recs(profile, procs, groups, activity, os, groups.len() as int);
    let known = known_services(os);
    let services = if caps.services {
        service_recs(profile, snapshot.services@, known, known.len() as int)
    } else {
        Seq::empty()
    };
    let all = precs + services + power_rec(profile, snapshot, caps) + purge_rec(profile, stats, caps);
    let recs = recommended(profile, snapshot, stats, activity, self_pid, os, caps);
    lemma_recommendations(profile, snapshot, stats, activity, self_pid, os, caps);
    lemma_process_recs_come_from_groups(profile, procs, groups, activity, os, groups.len() as int);
    lemma_service_recs_are_services(profile, snapshot.services@, known, known.len() as int);
    assert forall|i: int| 0 <= i < recs.len() && (#[trigger] recs[i]).kind is Process implies exists|g: int| #![trigger groups[g]] 0 <= g < groups.len() && {
        let members = groups[g].1;
        let memory = members_memory(procs, members);
        let cpu = members_cpu(procs, members);
        &&& recs[i].name == groups[g].0
        &&& recs[i].instances == members.len() as usize
        &&& (memory <= u64::MAX ==> recs[i].memory_bytes == memory)
        &&& (memory > u64::MAX ==> recs[i].memory_bytes == u64::MAX)
        &&& (cpu <= u64::MAX ==> recs[i].cpu_millionths == cpu)
        &&& (cpu > u64::MAX ==> recs[i].cpu_millionths == u64::MAX)
    } by {
        let x = recs[i];
        assert(recs.contains(x));
        assert(recs.to_multiset().count(x) > 0);
        assert(all.to_multiset().count(x) > 0);
        assert(all.contains(x));
        let j = choose|j: int| 0 <= j < all.len() && all[j] == x;
        let n1 = precs.len() as int;
        let n2 = n1 + services.len();
        if j >= n1 {
            if j < n2 {
                assert(all[j] == services[j - n1]);
                assert(services[j - n1].kind is Service);
            } else {
                assert(all[j].kind is PowerPlan || all[j].kind is MemoryPurge);
            }
        }
        assert(j < n1);
        assert(all[j] == precs[j]);
        let g = choose|g: int| 0 <= g < groups.len() && group_rec(profile, procs, #[trigger] groups[g], activity, os) == Some(precs[j]);
        let members = groups[g].1;
        lemma_totals_are_sums(procs, members);
        assert(x.memory_bytes == capped(memory_total(procs, members)));
        assert(x.cpu_millionths == capped(cpu_total(procs, members)));
        assert(x.instances == members.len() as usize);
        assert(x.name == groups[g].0);
    }
}

} // verus!
