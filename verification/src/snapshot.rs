//! What the platform reports about the machine: the process table, the
//! services a profile cares about, the active power plan, which processes own
//! a window, and headline resource figures for the dashboard.
//!
//! CPU use is carried as an integer count of millionths of a percent, finer
//! than a 32-bit float can tell apart at these magnitudes, so that sums and
//! thresholds are exact.

use vstd::prelude::*;
use crate::plan::{copy_opt, copy_string, copy_strings, strings_view};
use crate::text::chars_of;

verus! {

#[derive(Debug, Clone, PartialEq, Eq)]
pub struct ProcessInfo {
    pub pid: u32,
    pub name: String,
    pub exe: Option<String>,
    /// Full argument vector including the program itself.
    pub args: Vec<String>,
    pub cwd: Option<String>,
    pub memory_bytes: u64,
    /// CPU use in millionths of a percent.
    pub cpu_millionths: u64,
    /// Seconds since the epoch. Identifies a PID across reuse.
    pub start_time: u64,
}

/// The view of an optional string.
pub open spec fn opt_view(o: Option<String>) -> Option<Seq<char>> {
    match o {
        Some(s) => Some(s@),
        None => None,
    }
}

pub open spec fn is_separator(c: char) -> bool {
    c == '/' || c == '\\'
}

/// The path with its trailing separators removed.
pub open spec fn without_trailing_separators(p: Seq<char>) -> Seq<char>
    decreases p.len(),
{
    if p.len() > 0 && is_separator(p.last()) {
        without_trailing_separators(p.drop_last())
    } else {
        p
    }
}

/// The text after the last separator.
pub open spec fn last_component(p: Seq<char>) -> Seq<char>
    decreases p.len(),
{
    if p.len() == 0 || is_separator(p.last()) {
        Seq::empty()
    } else {
        last_component(p.drop_last()).push(p.last())
    }
}

/// The file name of a path whose components are separated by `/` or `\`:
/// none when it is empty, `.` or `..`.
pub open spec fn file_name_of(path: Seq<char>) -> Option<Seq<char>> {
    let name = last_component(without_trailing_separators(path));
    if name.len() == 0 || name == seq!['.'] || name == seq!['.', '.'] {
        None
    } else {
        Some(name)
    }
}

/// The index of the last `.` in `s`, if any.
pub open spec fn last_dot(s: Seq<char>) -> Option<int>
    decreases s.len(),
{
    if s.len() == 0 {
        None
    } else if s.last() == '.' {
        Some(s.len() - 1)
    } else {
        last_dot(s.drop_last())
    }
}

/// The file name without its extension: everything before the last `.`,
/// unless that `.` opens the name (`.bashrc` keeps its dot).
pub open spec fn stem_of(path: Seq<char>) -> Option<Seq<char>> {
    match file_name_of(path) {
        None => None,
        Some(name) => match last_dot(name) {
            Some(i) if i > 0 => Some(name.take(i)),
            _ => Some(name),
        },
    }
}

pub proof fn lemma_last_dot_bounds(s: Seq<char>)
    ensures
        last_dot(s) matches Some(i) ==> 0 <= i < s.len() && s[i] == '.',
        last_dot(s) matches Some(i) ==> forall|k: int| i < k < s.len() ==> s[k] != '.',
        last_dot(s) is None ==> forall|k: int| 0 <= k < s.len() ==> s[k] != '.',
    decreases s.len(),
{
    if s.len() > 0 {
        lemma_last_dot_bounds(s.drop_last());
        assert forall|k: int| 0 <= k < s.len() - 1 implies s.drop_last()[k] == s[k] by {}
    }
}

/// Where the trailing separators of `v` start.
fn trailing_end(v: &Vec<char>) -> (end: usize)
    ensures
        end <= v@.len(),
        v@.take(end as int) == without_trailing_separators(v@),
{
    let mut end: usize = v.len();
    assert(v@.take(v@.len() as int) =~= v@);
    while end > 0 && (v[end - 1] == '/' || v[end - 1] == '\\')
        invariant
            end <= v@.len(),
            without_trailing_separators(v@) == without_trailing_separators(v@.take(end as int)),
        decreases end,
    {
        assert(v@.take(end as int).drop_last() =~= v@.take(end - 1));
        end = end - 1;
    }
    end
}

/// Where the last component of `v[..end]` starts.
fn component_start(v: &Vec<char>, end: usize) -> (start: usize)
    requires
        end <= v@.len(),
    ensures
        start <= end,
        last_component(v@.take(end as int)) == v@.subrange(start as int, end as int),
{
    let mut start: usize = end;
    assert(v@.subrange(end as int, end as int) =~= Seq::<char>::empty());
    while start > 0 && v[start - 1] != '/' && v[start - 1] != '\\'
        invariant
            start <= end <= v@.len(),
            last_component(v@.take(end as int)) == last_component(v@.take(start as int)) + v@.subrange(start as int, end as int),
        decreases start,
    {
        assert(v@.take(start as int).drop_last() =~= v@.take(start - 1));
        assert(v@.subrange(start - 1, end as int) =~= seq![v@[start - 1]] + v@.subrange(start as int, end as int));
        assert(last_component(v@.take(start as int)) == last_component(v@.take(start - 1)).push(v@[start - 1]));
        assert(last_component(v@.take(start - 1)).push(v@[start - 1]) + v@.subrange(start as int, end as int)
            =~= last_component(v@.take(start - 1)) + v@.subrange(start - 1, end as int));
        start = start - 1;
    }
    assert(last_component(v@.take(start as int)) =~= Seq::<char>::empty());
    assert(Seq::<char>::empty() + v@.subrange(start as int, end as int) =~= v@.subrange(start as int, end as int));
    start
}

/// The position of the last `.` in `v[start..end]`, counted from `start`.
fn dot_in(v: &Vec<char>, start: usize, end: usize) -> (r: Option<usize>)
    requires
        start <= end <= v@.len(),
    ensures
        match r {
            Some(i) => last_dot(v@.subrange(start as int, end as int)) == Some(i as int),
            None => last_dot(v@.subrange(start as int, end as int)) is None,
        },
{
    let mut dot: usize = end;
    while dot > start && v[dot - 1] != '.'
        invariant
            start <= dot <= end <= v@.len(),
            last_dot(v@.subrange(start as int, end as int)) == last_dot(v@.subrange(start as int, dot as int)),
        decreases dot,
    {
        assert(v@.subrange(start as int, dot as int).drop_last() =~= v@.subrange(start as int, dot - 1));
        dot = dot - 1;
    }
    if dot == start {
        assert(v@.subrange(start as int, dot as int) =~= Seq::<char>::empty());
        None
    } else {
        Some(dot - 1 - start)
    }
}

/// `Path::file_name` of a recorded path, as a string.
pub fn file_name(path: &str) -> (r: Option<String>)
    ensures
        opt_view(r) == file_name_of(path@),
{
    let v = chars_of(path);
    let end = trailing_end(&v);
    let start = component_start(&v, end);
    let ghost name = v@.subrange(start as int, end as int);
    assert(file_name_of(path@) == if name.len() == 0 || name == seq!['.'] || name == seq!['.', '.'] { None } else { Some(name) });
    let len = end - start;
    if len == 0 {
        return None;
    }
    if len == 1 && v[start] == '.' {
        assert(name =~= seq!['.']);
        return None;
    }
    if len == 2 && v[start] == '.' && v[start + 1] == '.' {
        assert(name =~= seq!['.', '.']);
        return None;
    }
    assert(len == 1 ==> name != seq!['.']) by {
        if len == 1 && name == seq!['.'] {
            assert(name[0] == v@[start as int]);
        }
    }
    assert(len == 2 ==> name != seq!['.', '.']) by {
        if len == 2 && name == seq!['.', '.'] {
            assert(name[0] == v@[start as int]);
            assert(name[1] == v@[start + 1]);
        }
    }
    Some(crate::text::range_string(&v, start, end))
}

/// `Path::file_stem` of a recorded path, as a string.
pub fn file_stem(path: &str) -> (r: Option<String>)
    ensures
        opt_view(r) == stem_of(path@),
{
    let v = chars_of(path);
    let end = trailing_end(&v);
    let start = component_start(&v, end);
    let ghost name = v@.subrange(start as int, end as int);
    assert(file_name_of(path@) == if name.len() == 0 || name == seq!['.'] || name == seq!['.', '.'] { None } else { Some(name) });
    let len = end - start;
    if len == 0 {
        return None;
    }
    if len == 1 && v[start] == '.' {
        assert(name =~= seq!['.']);
        return None;
    }
    if len == 2 && v[start] == '.' && v[start + 1] == '.' {
        assert(name =~= seq!['.', '.']);
        return None;
    }
    assert(len == 1 ==> name != seq!['.']) by {
        if len == 1 && name == seq!['.'] {
            assert(name[0] == v@[start as int]);
        }
    }
    assert(len == 2 ==> name != seq!['.', '.']) by {
        if len == 2 && name == seq!['.', '.'] {
            assert(name[0] == v@[start as int]);
            assert(name[1] == v@[start + 1]);
        }
    }
    assert(file_name_of(path@) == Some(name));
    proof {
        lemma_last_dot_bounds(name);
    }
    match dot_in(&v, start, end) {
        Some(i) if i > 0 => {
            assert(name.take(i as int) =~= v@.subrange(start as int, (start + i) as int));
            Some(crate::text::range_string(&v, start, start + i))
        },
        _ => Some(crate::text::range_string(&v, start, end)),
    }
}

/// Whether `a` and `b` describe the same process, field for field.
pub open spec fn same_process(a: ProcessInfo, b: ProcessInfo) -> bool {
    &&& a.pid == b.pid
    &&& a.name@ == b.name@
    &&& opt_view(a.exe) == opt_view(b.exe)
    &&& strings_view(a.args@) == strings_view(b.args@)
    &&& opt_view(a.cwd) == opt_view(b.cwd)
    &&& a.memory_bytes == b.memory_bytes
    &&& a.cpu_millionths == b.cpu_millionths
    &&& a.start_time == b.start_time
}

impl ProcessInfo {
    /// A process record with the same fields.
    pub fn copy(&self) -> (r: ProcessInfo)
        ensures
            same_process(r, *self),
    {
        ProcessInfo {
            pid: self.pid,
            name: copy_string(&self.name),
            exe: copy_opt(&self.exe),
            args: copy_strings(&self.args),
            cwd: copy_opt(&self.cwd),
            memory_bytes: self.memory_bytes,
            cpu_millionths: self.cpu_millionths,
            start_time: self.start_time,
        }
    }

    pub open spec fn stem(self) -> Option<Seq<char>> {
        match self.exe {
            Some(exe) => stem_of(exe@),
            None => None,
        }
    }

    /// The file stem of the executable, when its path is known.
    pub fn exe_stem(&self) -> (r: Option<String>)
        ensures
            opt_view(r) == self.stem(),
    {
        match &self.exe {
            Some(exe) => file_stem(exe.as_str()),
            None => None,
        }
    }
}

#[derive(Debug, Clone, Copy, PartialEq, Eq, Structural)]
pub enum ServiceState {
    Running,
    Stopped,
    /// Starting, stopping or paused: left alone until it settles.
    Transitioning,
    NotInstalled,
}

#[derive(Debug, Clone, PartialEq, Eq)]
pub struct ServiceInfo {
    pub name: String,
    pub display_name: String,
    pub state: ServiceState,
}

#[derive(Debug, Clone, PartialEq, Eq)]
pub struct PowerPlan {
    pub id: String,
    pub name: String,
}

impl View for PowerPlan {
    type V = (Seq<char>, Seq<char>);

    open spec fn view(&self) -> (Seq<char>, Seq<char>) {
        (self.id@, self.name@)
    }
}

impl PowerPlan {
    /// A plan with the same id and name.
    pub fn copy(&self) -> (r: PowerPlan)
        ensures
            r@ == self@,
    {
        PowerPlan { id: self.id.clone(), name: self.name.clone() }
    }
}

/// The view of an optional power plan.
pub open spec fn power_view(p: Option<PowerPlan>) -> Option<(Seq<char>, Seq<char>)> {
    match p {
        Some(x) => Some(x@),
        None => None,
    }
}

#[derive(Debug, Clone, PartialEq, Eq, Default)]
pub struct Snapshot {
    pub processes: Vec<ProcessInfo>,
    pub services: Vec<ServiceInfo>,
    pub power_plan: Option<PowerPlan>,
}

#[derive(Debug, Clone, Copy, PartialEq, Eq, Default)]
pub struct SystemStats {
    /// Whole-machine CPU use in millionths of a percent.
    pub cpu_millionths: u64,
    pub memory_total: u64,
    pub memory_used: u64,
    pub memory_available: u64,
    pub memory_free: u64,
    pub process_count: usize,
}

/// Which processes the user can see: every owner of a visible window, and
/// the owner of the foreground window. `known` is false where the platform
/// cannot tell.
#[derive(Debug, Clone, PartialEq, Eq, Default)]
pub struct Activity {
    pub known: bool,
    pub foreground_pid: Option<u32>,
    pub windowed_pids: Vec<u32>,
}

} // verus!
