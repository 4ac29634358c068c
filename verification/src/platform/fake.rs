//! An in-memory machine for tests and the acceptance suite.
//!
//! Seeded with a recognisable desktop: a shell, a few background hogs, a game,
//! and a handful of services. Every action is recorded and reflected in the
//! next snapshot, so a whole quiet-then-restore cycle can be driven and its
//! effects asserted without suspending anything on the machine running the
//! tests.

use vstd::prelude::*;
use crate::plan::{contains_pid, copy_opt, copy_string, copy_strings, strings_view, Capabilities};
use crate::platform::error::PlatformError;
use crate::profile::Os;
use crate::snapshot::{file_name, file_name_of, power_view, same_process, opt_view, Activity, PowerPlan, ProcessInfo, ServiceInfo, ServiceState, Snapshot, SystemStats};
use crate::text::{decimal, lower, push_decimal, to_lower};

verus! {

pub const GIB: u64 = 1073741824;
pub const MIB: u64 = 1048576;
pub const EPOCH: u64 = 1700000000;

/// The fake machine as plain values.
pub struct FakeView {
    pub processes: Seq<ProcessInfo>,
    pub suspended: Seq<u32>,
    pub services: Seq<(Seq<char>, ServiceState)>,
    pub power: Option<(Seq<char>, Seq<char>)>,
    pub purges: u32,
    pub launched: Seq<Seq<char>>,
    pub next_pid: u32,
}

pub struct Fake {
    processes: Vec<ProcessInfo>,
    suspended: Vec<u32>,
    /// Keyed by the service name in ASCII lower case.
    services: Vec<(String, ServiceState)>,
    power: Option<PowerPlan>,
    purges: u32,
    launched: Vec<String>,
    next_pid: u32,
}

pub open spec fn service_pairs(v: Seq<(String, ServiceState)>) -> Seq<(Seq<char>, ServiceState)> {
    v.map_values(|e: (String, ServiceState)| (e.0@, e.1))
}

impl View for Fake {
    type V = FakeView;

    closed spec fn view(&self) -> FakeView {
        FakeView {
            processes: self.processes@,
            suspended: self.suspended@,
            services: service_pairs(self.services@),
            power: power_view(self.power),
            purges: self.purges,
            launched: strings_view(self.launched@),
            next_pid: self.next_pid,
        }
    }
}

/// The first process with this PID and start time.
pub open spec fn find_process(procs: Seq<ProcessInfo>, pid: u32, start_time: u64, i: int) -> Option<int>
    decreases procs.len() - i,
{
    if i < 0 || i >= procs.len() {
        None
    } else if procs[i].pid == pid && procs[i].start_time == start_time {
        Some(i)
    } else {
        find_process(procs, pid, start_time, i + 1)
    }
}

/// The state of the service keyed `key`, if the machine has it.
pub open spec fn service_state(services: Seq<(Seq<char>, ServiceState)>, key: Seq<char>) -> Option<ServiceState> {
    if exists|i: int| 0 <= i < services.len() && services[i].0 == key {
        Some(services[choose|i: int| 0 <= i < services.len() && services[i].0 == key].1)
    } else {
        None
    }
}

/// No PID is suspended twice and no service key appears twice.
pub open spec fn fake_wf(f: FakeView) -> bool {
    &&& forall|i: int, j: int| 0 <= i < j < f.suspended.len() ==> f.suspended[i] != f.suspended[j]
    &&& forall|i: int, j: int| 0 <= i < j < f.services.len() ==> f.services[i].0 != f.services[j].0
}

/// `s` with every copy of `pid` taken out.
pub open spec fn without_pid(s: Seq<u32>, pid: u32) -> Seq<u32>
    decreases s.len(),
{
    if s.len() == 0 {
        s
    } else if s.last() == pid {
        without_pid(s.drop_last(), pid)
    } else {
        without_pid(s.drop_last(), pid).push(s.last())
    }
}

/// `pid` added unless already there.
pub open spec fn with_pid(s: Seq<u32>, pid: u32) -> Seq<u32> {
    if s.contains(pid) {
        s
    } else {
        s.push(pid)
    }
}

/// The service `key` switched to `state`.
pub open spec fn with_service_state(services: Seq<(Seq<char>, ServiceState)>, key: Seq<char>, state: ServiceState) -> Seq<(Seq<char>, ServiceState)> {
    services.map_values(|e: (Seq<char>, ServiceState)| if e.0 == key { (e.0, state) } else { e })
}

/// The plan the fake machine switches to for Quiet Mode.
pub open spec fn fake_performance_plan() -> (Seq<char>, Seq<char>) {
    ("performance"@, "High performance"@)
}

/// The stock process of the seed: `C:/fake/<name>` started with
/// `--background`, 1.5% CPU, started at `EPOCH + pid`.
pub open spec fn seeded(p: ProcessInfo, pid: u32, name: Seq<char>, memory_mib: u64) -> bool {
    &&& p.pid == pid
    &&& p.name@ == name
    &&& opt_view(p.exe) == Some("C:/fake/"@ + name)
    &&& strings_view(p.args@) == seq![name, "--background"@]
    &&& opt_view(p.cwd) == Some("C:/fake"@)
    &&& p.memory_bytes == memory_mib * MIB
    &&& p.cpu_millionths == 1500000
    &&& p.start_time == EPOCH + pid
}

fn seed(pid: u32, name: &str, memory_mib: u64) -> (p: ProcessInfo)
    requires
        memory_mib <= 4096,
    ensures
        seeded(p, pid, name@, memory_mib),
{
    let mut exe = String::from_str("C:/fake/");
    exe.append(name);
    let mut args: Vec<String> = Vec::new();
    args.push(String::from_str(name));
    args.push(String::from_str("--background"));
    assert(strings_view(args@) =~= seq![name@, "--background"@]);
    ProcessInfo {
        pid,
        name: String::from_str(name),
        exe: Some(exe),
        args,
        cwd: Some(String::from_str("C:/fake")),
        memory_bytes: memory_mib * MIB,
        cpu_millionths: 1500000,
        start_time: EPOCH + pid as u64,
    }
}

/// The seeded machine: explorer, four background programs, a game and an
/// unknown windowless render farm; SysMain, WSearch and Spooler running and
/// DiagTrack stopped; the Balanced plan active.
pub open spec fn is_fresh_fake(f: FakeView) -> bool {
    &&& f.processes.len() == 7
    &&& seeded(f.processes[0], 4, "explorer.exe"@, 120)
    &&& seeded(f.processes[1], 100, "OneDrive.exe"@, 210)
    &&& seeded(f.processes[2], 101, "Dropbox.exe"@, 180)
    &&& seeded(f.processes[3], 102, "GoogleUpdate.exe"@, 12)
    &&& seeded(f.processes[4], 103, "Slack.exe"@, 640)
    &&& seeded(f.processes[5], 300, "game.exe"@, 2048)
    &&& seeded(f.processes[6], 400, "render-farm.exe"@, 900)
    &&& f.suspended.len() == 0
    &&& f.services == seq![
        (lower("SysMain"@), ServiceState::Running),
        (lower("WSearch"@), ServiceState::Running),
        (lower("DiagTrack"@), ServiceState::Stopped),
        (lower("Spooler"@), ServiceState::Running),
    ]
    &&& f.power == Some(("balanced"@, "Balanced"@))
    &&& f.purges == 0
    &&& f.launched.len() == 0
    &&& f.next_pid == 1000
}

impl FakeView {
    pub open spec fn with_suspended(self, suspended: Seq<u32>) -> FakeView {
        FakeView { suspended, ..self }
    }

    pub open spec fn with_services(self, services: Seq<(Seq<char>, ServiceState)>) -> FakeView {
        FakeView { services, ..self }
    }

    pub open spec fn with_power(self, power: Option<(Seq<char>, Seq<char>)>) -> FakeView {
        FakeView { power, ..self }
    }
}

/// The machine after `pid` is suspended.
pub open spec fn after_suspend(f: FakeView, pid: u32) -> FakeView {
    f.with_suspended(with_pid(f.suspended, pid))
}

/// The machine after `pid` is resumed.
pub open spec fn after_resume(f: FakeView, pid: u32) -> FakeView {
    f.with_suspended(without_pid(f.suspended, pid))
}

/// The machine after the service `key` is switched to `state`.
pub open spec fn after_service(f: FakeView, key: Seq<char>, state: ServiceState) -> FakeView {
    f.with_services(with_service_state(f.services, key, state))
}

/// The state a snapshot reports for the service named `name`.
pub open spec fn reported_state(services: Seq<(Seq<char>, ServiceState)>, name: Seq<char>) -> ServiceState {
    match service_state(services, lower(name)) {
        Some(st) => st,
        None => ServiceState::NotInstalled,
    }
}

/// The memory held by processes that are not suspended.
pub open spec fn live_memory(procs: Seq<ProcessInfo>, suspended: Seq<u32>) -> nat
    decreases procs.len(),
{
    if procs.len() == 0 {
        0
    } else {
        live_memory(procs.drop_last(), suspended) + if suspended.contains(procs.last().pid) {
            0
        } else {
            procs.last().memory_bytes as nat
        }
    }
}

/// What the fake machine reports as in use: a 6 GiB baseline plus every
/// process that is not suspended.
pub open spec fn used_memory(f: FakeView) -> nat {
    (6 * GIB) as nat + live_memory(f.processes, f.suspended)
}

/// The record of a program the fake machine launched as `pid`: named after
/// the file name of `exe` (`unknown` when it has none), 64 MiB, 0.5% CPU.
pub open spec fn launched_as(p: ProcessInfo, pid: u32, exe: Seq<char>, args: Seq<Seq<char>>, cwd: Option<Seq<char>>) -> bool {
    &&& p.pid == pid
    &&& p.name@ == (match file_name_of(exe) {
        Some(n) => n,
        None => "unknown"@,
    })
    &&& opt_view(p.exe) == Some(exe)
    &&& strings_view(p.args@) == args
    &&& opt_view(p.cwd) == cwd
    &&& p.memory_bytes == 64 * MIB
    &&& p.cpu_millionths == 500000
    &&& p.start_time == EPOCH + pid
}

pub proof fn lemma_without_absent(s: Seq<u32>, pid: u32)
    requires
        !s.contains(pid),
    ensures
        without_pid(s, pid) == s,
    decreases s.len(),
{
    if s.len() > 0 {
        assert(!s.drop_last().contains(pid)) by {
            if s.drop_last().contains(pid) {
                let k = choose|k: int| 0 <= k < s.drop_last().len() && s.drop_last()[k] == pid;
                assert(s[k] == pid);
            }
        }
        lemma_without_absent(s.drop_last(), pid);
        assert(s.drop_last().push(s.last()) =~= s);
    }
}

pub proof fn lemma_contains_last(s: Seq<u32>, x: u32)
    requires
        s.len() > 0,
    ensures
        s.contains(x) <==> (s.drop_last().contains(x) || x == s.last()),
{
    let t = s.drop_last();
    if s.contains(x) {
        let k = choose|k: int| 0 <= k < s.len() && s[k] == x;
        if k < s.len() - 1 {
            assert(t[k] == x);
        }
    }
    if t.contains(x) {
        let k = choose|k: int| 0 <= k < t.len() && t[k] == x;
        assert(s[k] == x);
    }
    if x == s.last() {
        assert(s[s.len() - 1] == x);
    }
}

pub proof fn lemma_without_members(s: Seq<u32>, pid: u32, x: u32)
    ensures
        without_pid(s, pid).contains(x) <==> (s.contains(x) && x != pid),
    decreases s.len(),
{
    if s.len() > 0 {
        let t = s.drop_last();
        lemma_without_members(t, pid, x);
        lemma_contains_last(s, x);
        if s.last() != pid {
            let w = without_pid(t, pid);
            assert(w.push(s.last()).drop_last() =~= w);
            lemma_contains_last(w.push(s.last()), x);
        }
    }
}

pub proof fn lemma_without_distinct(s: Seq<u32>, pid: u32)
    requires
        forall|i: int, j: int| 0 <= i < j < s.len() ==> s[i] != s[j],
    ensures
        forall|i: int, j: int| 0 <= i < j < without_pid(s, pid).len() ==> without_pid(s, pid)[i] != without_pid(s, pid)[j],
    decreases s.len(),
{
    if s.len() > 0 {
        let t = s.drop_last();
        assert(forall|i: int, j: int| 0 <= i < j < t.len() ==> t[i] == s[i] && t[j] == s[j]);
        lemma_without_distinct(t, pid);
        if s.last() != pid {
            let w = without_pid(t, pid);
            assert(!t.contains(s.last())) by {
                if t.contains(s.last()) {
                    let k = choose|k: int| 0 <= k < t.len() && t[k] == s.last();
                    assert(s[k] == s[s.len() - 1]);
                }
            }
            lemma_without_members(t, pid, s.last());
            assert forall|i: int, j: int| 0 <= i < j < w.push(s.last()).len() implies w.push(s.last())[i] != w.push(s.last())[j] by {
                if j == w.len() {
                    assert(w.contains(w[i]));
                }
            }
        }
    }
}

/// Resuming a process that was not suspended before a suspend leaves the
/// machine as it was.
pub proof fn lemma_resume_undoes_suspend(f: FakeView, pid: u32)
    requires
        !f.suspended.contains(pid),
    ensures
        after_resume(after_suspend(f, pid), pid) == f,
{
    let s = f.suspended;
    assert(with_pid(s, pid) == s.push(pid));
    assert(s.push(pid).drop_last() =~= s);
    lemma_without_absent(s, pid);
    assert(after_resume(after_suspend(f, pid), pid).suspended == s);
}

pub proof fn lemma_service_state_at(services: Seq<(Seq<char>, ServiceState)>, key: Seq<char>, i: int)
    requires
        forall|a: int, b: int| 0 <= a < b < services.len() ==> services[a].0 != services[b].0,
        0 <= i < services.len(),
        services[i].0 == key,
    ensures
        service_state(services, key) == Some(services[i].1),
{
    let j = choose|j: int| 0 <= j < services.len() && services[j].0 == key;
    if j < i {
        assert(services[j].0 != services[i].0);
    } else if i < j {
        assert(services[i].0 != services[j].0);
    }
}

/// Starting a service that was running before it was stopped leaves the
/// machine as it was.
pub proof fn lemma_start_undoes_stop(f: FakeView, key: Seq<char>)
    requires
        fake_wf(f),
        service_state(f.services, key) == Some(ServiceState::Running),
    ensures
        after_service(after_service(f, key, ServiceState::Stopped), key, ServiceState::Running) == f,
{
    let s = f.services;
    let i = choose|i: int| 0 <= i < s.len() && s[i].0 == key;
    assert(s[i].1 == ServiceState::Running);
    let once = with_service_state(s, key, ServiceState::Stopped);
    let twice = with_service_state(once, key, ServiceState::Running);
    assert forall|k: int| 0 <= k < s.len() implies twice[k] == s[k] by {
        if s[k].0 == key {
            if k != i {
                if k < i {
                    assert(s[k].0 != s[i].0);
                } else {
                    assert(s[i].0 != s[k].0);
                }
            }
        }
    }
    assert(twice =~= s);
}

/// Restoring the plan that `set_performance_power` handed back leaves the
/// power setting as it was.
pub proof fn lemma_restore_undoes_performance(f: FakeView)
    requires
        f.power is Some,
    ensures
        f.with_power(Some(fake_performance_plan())).with_power(Some(f.power->0)) == f,
{
}

impl Fake {
    /// No PID is suspended twice and no service is listed twice.
    pub open spec fn wf(&self) -> bool {
        fake_wf(self@)
    }

    /// The seeded machine.
    pub fn new() -> (f: Fake)
        ensures
            f.wf(),
            is_fresh_fake(f@),
    {
        let mut processes: Vec<ProcessInfo> = Vec::new();
        processes.push(seed(4, "explorer.exe", 120));
        processes.push(seed(100, "OneDrive.exe", 210));
        processes.push(seed(101, "Dropbox.exe", 180));
        processes.push(seed(102, "GoogleUpdate.exe", 12));
        processes.push(seed(103, "Slack.exe", 640));
        processes.push(seed(300, "game.exe", 2048));
        // Unknown to the catalogue, large, and without a window: what the
        // scanner's heuristic is for.
        processes.push(seed(400, "render-farm.exe", 900));
        let mut services: Vec<(String, ServiceState)> = Vec::new();
        services.push((to_lower("SysMain"), ServiceState::Running));
        services.push((to_lower("WSearch"), ServiceState::Running));
        services.push((to_lower("DiagTrack"), ServiceState::Stopped));
        services.push((to_lower("Spooler"), ServiceState::Running));
        proof {
            reveal_strlit("SysMain");
            reveal_strlit("WSearch");
            reveal_strlit("DiagTrack");
            reveal_strlit("Spooler");
            let sv = service_pairs(services@);
            assert(sv[0].0 != sv[1].0 && sv[0].0 != sv[2].0 && sv[0].0 != sv[3].0) by {
                assert(sv[0].0.len() == 7 && sv[1].0.len() == 7 && sv[2].0.len() == 9 && sv[3].0.len() == 7);
                assert(sv[0].0[1] != sv[1].0[1]);
                assert(sv[0].0[1] != sv[3].0[1]);
            }
            assert(sv[1].0 != sv[2].0 && sv[1].0 != sv[3].0 && sv[2].0 != sv[3].0) by {
                assert(sv[1].0.len() == 7 && sv[2].0.len() == 9 && sv[3].0.len() == 7);
                assert(sv[1].0[1] != sv[3].0[1]);
            }
        }
        let f = Fake {
            processes,
            suspended: Vec::new(),
            services,
            power: Some(PowerPlan { id: String::from_str("balanced"), name: String::from_str("Balanced") }),
            purges: 0,
            launched: Vec::new(),
            next_pid: 1000,
        };
        assert(f@.services =~= seq![
            (lower("SysMain"@), ServiceState::Running),
            (lower("WSearch"@), ServiceState::Running),
            (lower("DiagTrack"@), ServiceState::Stopped),
            (lower("Spooler"@), ServiceState::Running),
        ]);
        assert(f@.launched =~= Seq::<Seq<char>>::empty());
        f
    }

    /// The fake machine is a Windows machine wherever it runs, so the
    /// catalogue, defaults and critical lists it is tested against never
    /// change with the machine running the tests.
    pub fn os(&self) -> (r: Os)
        ensures
            r == Os::Windows,
    {
        Os::Windows
    }

    /// Everything is available and the fake is already elevated.
    pub fn capabilities(&self) -> (c: Capabilities)
        ensures
            c.services && c.power && c.memory_purge && c.elevated && !c.can_elevate,
    {
        Capabilities { services: true, power: true, memory_purge: true, elevated: true, can_elevate: false }
    }

    /// The index of the first process with this PID and start time.
    fn find(&self, pid: u32, start_time: u64) -> (r: Option<usize>)
        ensures
            match r {
                Some(i) => i < self@.processes.len() && find_process(self@.processes, pid, start_time, 0) == Some(i as int),
                None => find_process(self@.processes, pid, start_time, 0) is None,
            },
    {
        let mut i: usize = 0;
        while i < self.processes.len()
            invariant
                i <= self@.processes.len(),
                find_process(self@.processes, pid, start_time, 0) == find_process(self@.processes, pid, start_time, i as int),
            decreases self.processes.len() - i,
        {
            if self.processes[i].pid == pid && self.processes[i].start_time == start_time {
                return Some(i);
            }
            i = i + 1;
        }
        None
    }

    /// The index of the service keyed `key`.
    fn service_index(&self, key: &String) -> (r: Option<usize>)
        ensures
            match r {
                Some(i) => i < self@.services.len() && self@.services[i as int].0 == key@,
                None => forall|i: int| 0 <= i < self@.services.len() ==> self@.services[i].0 != key@,
            },
    {
        let mut i: usize = 0;
        while i < self.services.len()
            invariant
                i <= self@.services.len(),
                self@.services.len() == self.services@.len(),
                forall|k: int| 0 <= k < i ==> self@.services[k].0 != key@,
            decreases self.services.len() - i,
        {
            if self.services[i].0 == *key {
                return Some(i);
            }
            i = i + 1;
        }
        None
    }

    /// The text of a "not running" error for `pid`.
    fn pid_text(pid: u32) -> (m: String)
        ensures
            m@ == "PID "@ + decimal(pid as nat),
    {
        let mut m = String::from_str("PID ");
        push_decimal(&mut m, pid as u64);
        proof {
            reveal_strlit("PID ");
        }
        m
    }
}

proof fn lemma_live_prefix(procs: Seq<ProcessInfo>, suspended: Seq<u32>, i: int, j: int)
    requires
        0 <= i <= j <= procs.len(),
    ensures
        live_memory(procs.take(i), suspended) <= live_memory(procs.take(j), suspended),
    decreases j - i,
{
    if i < j {
        lemma_live_prefix(procs, suspended, i, j - 1);
        assert(procs.take(j).drop_last() =~= procs.take(j - 1));
    }
}

impl Fake {
    /// The process table plus the state of the named services and the active
    /// power plan. Names are matched without regard to ASCII case; unknown
    /// ones come back as not installed.
    pub fn snapshot(&self, service_names: &Vec<String>) -> (r: Result<Snapshot, PlatformError>)
        requires
            self.wf(),
        ensures
            r matches Ok(s) && {
                &&& s.processes@.len() == self@.processes.len()
                &&& forall|i: int| 0 <= i < s.processes@.len() ==> same_process(#[trigger] s.processes@[i], self@.processes[i])
                &&& s.services@.len() == service_names@.len()
                &&& forall|i: int| 0 <= i < s.services@.len() ==> {
                    &&& (#[trigger] s.services@[i]).name@ == service_names@[i]@
                    &&& s.services@[i].display_name@ == service_names@[i]@ + " (fake)"@
                    &&& s.services@[i].state == reported_state(self@.services, service_names@[i]@)
                }
                &&& power_view(s.power_plan) == self@.power
            },
    {
        let mut processes: Vec<ProcessInfo> = Vec::new();
        let mut i: usize = 0;
        while i < self.processes.len()
            invariant
                i <= self@.processes.len(),
                processes@.len() == i,
                forall|k: int| 0 <= k < i ==> same_process(#[trigger] processes@[k], self@.processes[k]),
            decreases self.processes.len() - i,
        {
            processes.push(self.processes[i].copy());
            i = i + 1;
        }
        let mut services: Vec<ServiceInfo> = Vec::new();
        let mut j: usize = 0;
        while j < service_names.len()
            invariant
                fake_wf(self@),
                j <= service_names@.len(),
                services@.len() == j,
                forall|k: int| 0 <= k < j ==> {
                    &&& (#[trigger] services@[k]).name@ == service_names@[k]@
                    &&& services@[k].display_name@ == service_names@[k]@ + " (fake)"@
                    &&& services@[k].state == reported_state(self@.services, service_names@[k]@)
                },
            decreases service_names.len() - j,
        {
            let name = &service_names[j];
            let key = to_lower(name.as_str());
            let state = match self.service_index(&key) {
                Some(at) => {
                    proof {
                        lemma_service_state_at(self@.services, key@, at as int);
                    }
                    self.services[at].1
                },
                None => ServiceState::NotInstalled,
            };
            let mut display = name.clone();
            display.append(" (fake)");
            services.push(ServiceInfo { name: name.clone(), display_name: display, state });
            j = j + 1;
        }
        let power_plan = match &self.power {
            Some(p) => Some(p.copy()),
            None => None,
        };
        Ok(Snapshot { processes, services, power_plan })
    }

    /// Whether another program can be launched: PIDs are handed out upward
    /// and the next one must exist.
    pub fn can_launch(&self) -> (r: bool)
        ensures
            r == (self@.next_pid < u32::MAX),
    {
        self.next_pid < u32::MAX
    }

    /// Whether another purge can be counted.
    pub fn can_purge(&self) -> (r: bool)
        ensures
            r == (self@.purges < u32::MAX),
    {
        self.purges < u32::MAX
    }

    /// Whether the memory figures of `stats` can be stated: at most 24 GiB
    /// held by live processes on the 32 GiB machine.
    pub fn memory_fits(&self) -> (r: bool)
        ensures
            r == (live_memory(self@.processes, self@.suspended) <= 24 * GIB),
    {
        let bound: u64 = 24 * GIB;
        let mut live: u64 = 0;
        let mut i: usize = 0;
        assert(self@.processes.take(0) =~= Seq::<ProcessInfo>::empty());
        while i < self.processes.len()
            invariant
                i <= self@.processes.len(),
                live == live_memory(self@.processes.take(i as int), self@.suspended),
                live <= bound,
                bound == 24 * GIB,
            decreases self.processes.len() - i,
        {
            assert(self@.processes.take(i + 1).drop_last() =~= self@.processes.take(i as int));
            let p = &self.processes[i];
            let share: u64 = if contains_pid(&self.suspended, p.pid) { 0 } else { p.memory_bytes };
            if share > bound - live {
                proof {
                    lemma_live_prefix(self@.processes, self@.suspended, i + 1, self@.processes.len() as int);
                    assert(self@.processes.take(self@.processes.len() as int) =~= self@.processes);
                }
                return false;
            }
            live = live + share;
            i = i + 1;
        }
        assert(self@.processes.take(self@.processes.len() as int) =~= self@.processes);
        true
    }

    /// Headline figures: a 6 GiB baseline plus every process that is not
    /// suspended is in use on a 32 GiB machine, 2 GiB of it file cache; CPU
    /// reads 23% with nothing suspended and 4% otherwise.
    pub fn stats(&self) -> (r: Result<SystemStats, PlatformError>)
        requires
            live_memory(self@.processes, self@.suspended) <= 24 * GIB,
        ensures
            r matches Ok(st) && {
                &&& st.cpu_millionths == if self@.suspended.len() == 0 { 23000000u64 } else { 4000000u64 }
                &&& st.memory_total == 32 * GIB
                &&& st.memory_used == used_memory(self@)
                &&& st.memory_available == 32 * GIB - used_memory(self@)
                &&& st.memory_free == 30 * GIB - used_memory(self@)
                &&& st.process_count == self@.processes.len()
            },
    {
        let mut live: u64 = 0;
        let mut i: usize = 0;
        assert(self@.processes.take(0) =~= Seq::<ProcessInfo>::empty());
        while i < self.processes.len()
            invariant
                i <= self@.processes.len(),
                live == live_memory(self@.processes.take(i as int), self@.suspended),
                live_memory(self@.processes, self@.suspended) <= 24 * GIB,
            decreases self.processes.len() - i,
        {
            proof {
                lemma_live_prefix(self@.processes, self@.suspended, i + 1, self@.processes.len() as int);
                assert(self@.processes.take(self@.processes.len() as int) =~= self@.processes);
            }
            assert(self@.processes.take(i + 1).drop_last() =~= self@.processes.take(i as int));
            let p = &self.processes[i];
            if !contains_pid(&self.suspended, p.pid) {
                live = live + p.memory_bytes;
            }
            i = i + 1;
        }
        assert(self@.processes.take(self@.processes.len() as int) =~= self@.processes);
        let used = 6 * GIB + live;
        Ok(SystemStats {
            cpu_millionths: if self.suspended.len() == 0 { 23000000 } else { 4000000 },
            memory_total: 32 * GIB,
            memory_used: used,
            memory_available: 32 * GIB - used,
            // Two gigabytes of file cache, so the scanner has something to purge.
            memory_free: 30 * GIB - used,
            process_count: self.processes.len(),
        })
    }

    /// The game is in front and the shell has a window; everything else is
    /// background, including the unknown render farm.
    pub fn activity(&self) -> (a: Activity)
        ensures
            a.known,
            a.foreground_pid == Some(300u32),
            a.windowed_pids@ == seq![4u32, 300u32],
    {
        let mut windowed: Vec<u32> = Vec::new();
        windowed.push(4);
        windowed.push(300);
        assert(windowed@ =~= seq![4u32, 300u32]);
        Activity { known: true, foreground_pid: Some(300), windowed_pids: windowed }
    }

    /// Suspends the process with this PID and start time; a PID that now
    /// belongs to another process is reported as not running.
    pub fn suspend(&mut self, pid: u32, start_time: u64) -> (r: Result<(), PlatformError>)
        requires
            old(self).wf(),
        ensures
            final(self).wf(),
            match find_process(old(self)@.processes, pid, start_time, 0) {
                Some(_) => r is Ok && final(self)@ == after_suspend(old(self)@, pid),
                None => r matches Err(PlatformError::NotRunning(m)) && m@ == "PID "@ + decimal(pid as nat) && final(self)@ == old(self)@,
            },
    {
        match self.find(pid, start_time) {
            None => Err(PlatformError::NotRunning(Self::pid_text(pid))),
            Some(_) => {
                if !contains_pid(&self.suspended, pid) {
                    proof {
                        assert forall|i: int, j: int| 0 <= i < j < self@.suspended.push(pid).len() implies
                            self@.suspended.push(pid)[i] != self@.suspended.push(pid)[j] by {
                            if j == self@.suspended.len() {
                                assert(self@.suspended.contains(self@.suspended[i]));
                            }
                        }
                    }
                    self.suspended.push(pid);
                }
                Ok(())
            },
        }
    }

    /// Lets the process with this PID and start time run again.
    pub fn resume(&mut self, pid: u32, start_time: u64) -> (r: Result<(), PlatformError>)
        requires
            old(self).wf(),
        ensures
            final(self).wf(),
            match find_process(old(self)@.processes, pid, start_time, 0) {
                Some(_) => r is Ok && final(self)@ == after_resume(old(self)@, pid),
                None => r matches Err(PlatformError::NotRunning(m)) && m@ == "PID "@ + decimal(pid as nat) && final(self)@ == old(self)@,
            },
    {
        match self.find(pid, start_time) {
            None => Err(PlatformError::NotRunning(Self::pid_text(pid))),
            Some(_) => {
                let rest = drop_pid(&self.suspended, pid);
                proof {
                    lemma_without_distinct(self@.suspended, pid);
                }
                self.suspended = rest;
                Ok(())
            },
        }
    }

    /// Ends the process with this PID and start time.
    pub fn close(&mut self, pid: u32, start_time: u64) -> (r: Result<(), PlatformError>)
        requires
            old(self).wf(),
        ensures
            final(self).wf(),
            match find_process(old(self)@.processes, pid, start_time, 0) {
                Some(i) => r is Ok && final(self)@ == (FakeView {
                    processes: old(self)@.processes.remove(i),
                    suspended: without_pid(old(self)@.suspended, pid),
                    ..old(self)@
                }),
                None => r matches Err(PlatformError::NotRunning(m)) && m@ == "PID "@ + decimal(pid as nat) && final(self)@ == old(self)@,
            },
    {
        match self.find(pid, start_time) {
            None => Err(PlatformError::NotRunning(Self::pid_text(pid))),
            Some(index) => {
                self.processes.remove(index);
                let rest = drop_pid(&self.suspended, pid);
                proof {
                    lemma_without_distinct(self@.suspended, pid);
                }
                self.suspended = rest;
                Ok(())
            },
        }
    }

    /// Starts `exe` under the next free PID.
    pub fn launch(&mut self, exe: &str, args: &Vec<String>, cwd: Option<&str>) -> (r: Result<(), PlatformError>)
        requires
            old(self).wf(),
            old(self)@.next_pid < u32::MAX,
        ensures
            final(self).wf(),
            r is Ok,
            final(self)@.processes.len() == old(self)@.processes.len() + 1,
            final(self)@.processes.drop_last() == old(self)@.processes,
            launched_as(final(self)@.processes.last(), old(self)@.next_pid, exe@, strings_view(args@), match cwd {
                Some(c) => Some(c@),
                None => None,
            }),
            final(self)@.launched == old(self)@.launched.push(exe@),
            final(self)@.next_pid == old(self)@.next_pid + 1,
            final(self)@.suspended == old(self)@.suspended,
            final(self)@.services == old(self)@.services,
            final(self)@.power == old(self)@.power,
            final(self)@.purges == old(self)@.purges,
    {
        let name = match file_name(exe) {
            Some(n) => n,
            None => String::from_str("unknown"),
        };
        proof {
            reveal_strlit("unknown");
        }
        let pid = self.next_pid;
        self.next_pid = pid + 1;
        let p = ProcessInfo {
            pid,
            name,
            exe: Some(String::from_str(exe)),
            args: copy_strings(args),
            cwd: match cwd {
                Some(c) => Some(String::from_str(c)),
                None => None,
            },
            memory_bytes: 64 * MIB,
            cpu_millionths: 500000,
            start_time: EPOCH + pid as u64,
        };
        let ghost before = self@.processes;
        self.processes.push(p);
        assert(self@.processes.drop_last() =~= before);
        let ghost launched = self.launched@;
        self.launched.push(String::from_str(exe));
        assert(strings_view(self.launched@) =~= strings_view(launched).push(exe@));
        assert(self@.suspended == old(self)@.suspended);
        assert(self@.services == old(self)@.services);
        Ok(())
    }

    /// Switches the service named `name` (any ASCII case) to `state`.
    fn set_service(&mut self, name: &str, state: ServiceState) -> (r: Result<(), PlatformError>)
        requires
            old(self).wf(),
        ensures
            final(self).wf(),
            match service_state(old(self)@.services, lower(name@)) {
                Some(_) => r is Ok && final(self)@ == after_service(old(self)@, lower(name@), state),
                None => r matches Err(PlatformError::NotInstalled(m)) && m@ == name@ && final(self)@ == old(self)@,
            },
    {
        let key = to_lower(name);
        match self.service_index(&key) {
            None => Err(PlatformError::NotInstalled(String::from_str(name))),
            Some(at) => {
                let ghost old_pairs = self@.services;
                proof {
                    assert(exists|i: int| 0 <= i < old_pairs.len() && old_pairs[i].0 == key@);
                }
                let entry_key = self.services[at].0.clone();
                self.services.set(at, (entry_key, state));
                proof {
                    let updated = with_service_state(old_pairs, key@, state);
                    assert forall|k: int| 0 <= k < old_pairs.len() implies updated[k] == self@.services[k] by {
                        if k != at && old_pairs[k].0 == key@ {
                            if k < at {
                                assert(old_pairs[k].0 != old_pairs[at as int].0);
                            } else {
                                assert(old_pairs[at as int].0 != old_pairs[k].0);
                            }
                        }
                    }
                    assert(updated =~= self@.services);
                }
                Ok(())
            },
        }
    }

    /// Stops the service named `name`; its name is matched without regard
    /// to ASCII case.
    pub fn stop_service(&mut self, name: &str) -> (r: Result<(), PlatformError>)
        requires
            old(self).wf(),
        ensures
            final(self).wf(),
            match service_state(old(self)@.services, lower(name@)) {
                Some(_) => r is Ok && final(self)@ == after_service(old(self)@, lower(name@), ServiceState::Stopped),
                None => r matches Err(PlatformError::NotInstalled(m)) && m@ == name@ && final(self)@ == old(self)@,
            },
    {
        self.set_service(name, ServiceState::Stopped)
    }

    /// Starts the service named `name`; its name is matched without regard
    /// to ASCII case.
    pub fn start_service(&mut self, name: &str) -> (r: Result<(), PlatformError>)
        requires
            old(self).wf(),
        ensures
            final(self).wf(),
            match service_state(old(self)@.services, lower(name@)) {
                Some(_) => r is Ok && final(self)@ == after_service(old(self)@, lower(name@), ServiceState::Running),
                None => r matches Err(PlatformError::NotInstalled(m)) && m@ == name@ && final(self)@ == old(self)@,
            },
    {
        self.set_service(name, ServiceState::Running)
    }

    /// Switches to the High performance plan and hands back the plan that
    /// was active, for the journal.
    pub fn set_performance_power(&mut self) -> (r: Result<PowerPlan, PlatformError>)
        requires
            old(self).wf(),
        ensures
            final(self).wf(),
            match old(self)@.power {
                Some(previous) => r matches Ok(p) && p@ == previous
                    && final(self)@ == old(self)@.with_power(Some(fake_performance_plan())),
                None => r matches Err(PlatformError::Unsupported(m)) && m@ == "no active power plan"@
                    && final(self)@ == old(self)@,
            },
    {
        match &self.power {
            None => Err(PlatformError::Unsupported(String::from_str("no active power plan"))),
            Some(current) => {
                let previous = current.copy();
                self.power = Some(PowerPlan { id: String::from_str("performance"), name: String::from_str("High performance") });
                proof {
                    reveal_strlit("performance");
                    reveal_strlit("High performance");
                }
                Ok(previous)
            },
        }
    }

    /// Makes `plan` the active plan.
    pub fn restore_power(&mut self, plan: &PowerPlan) -> (r: Result<(), PlatformError>)
        requires
            old(self).wf(),
        ensures
            final(self).wf(),
            r is Ok,
            final(self)@ == old(self)@.with_power(Some(plan@)),
    {
        self.power = Some(plan.copy());
        Ok(())
    }

    /// Counts a purge of cached memory.
    pub fn purge_memory(&mut self) -> (r: Result<(), PlatformError>)
        requires
            old(self).wf(),
            old(self)@.purges < u32::MAX,
        ensures
            final(self).wf(),
            r is Ok,
            final(self)@ == (FakeView { purges: (old(self)@.purges + 1) as u32, ..old(self)@ }),
    {
        self.purges = self.purges + 1;
        Ok(())
    }

    /// The fake machine is always elevated, so a relaunch is refused.
    pub fn relaunch_elevated(&self, exe: &str, args: &Vec<String>) -> (r: Result<(), PlatformError>)
        ensures
            r matches Err(PlatformError::Unsupported(m)) && m@ == "the fake platform is always elevated"@,
    {
        Err(PlatformError::Unsupported(String::from_str("the fake platform is always elevated")))
    }
}

/// `v` with every copy of `pid` taken out.
fn drop_pid(v: &Vec<u32>, pid: u32) -> (r: Vec<u32>)
    ensures
        r@ == without_pid(v@, pid),
{
    let mut r: Vec<u32> = Vec::new();
    let mut i: usize = 0;
    assert(v@.take(0) =~= Seq::<u32>::empty());
    while i < v.len()
        invariant
            i <= v@.len(),
            r@ == without_pid(v@.take(i as int), pid),
        decreases v.len() - i,
    {
        assert(v@.take(i + 1).drop_last() =~= v@.take(i as int));
        if v[i] != pid {
            r.push(v[i]);
        }
        i = i + 1;
    }
    assert(v@.take(v@.len() as int) =~= v@);
    r
}

} // verus!
