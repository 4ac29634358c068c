//! The process picker's rows: every instance of a program folded into one
//! line, heaviest first, so a user can see what is worth parking.
//!
//! CPU use is summed in millionths of a percent.

use vstd::prelude::*;
use crate::plan::{copy_opt, copy_string};
use crate::policy::{normalize, normalized};
use crate::recommend::{lemma_lex_total, lemma_lex_trans, lex_le, lex_le_str};
use crate::snapshot::{opt_view, ProcessInfo};

verus! {

#[derive(Debug, Clone)]
pub struct ProcessRow {
    pub name: String,
    pub instances: usize,
    pub memory_bytes: u64,
    /// Summed CPU use in millionths of a percent.
    pub cpu_millionths: u64,
    pub exe: Option<String>,
}

/// A row as plain values: name, instances, memory, CPU, executable.
pub type RowView = (Seq<char>, nat, nat, nat, Option<Seq<char>>);

impl View for ProcessRow {
    type V = RowView;

    open spec fn view(&self) -> RowView {
        (self.name@, self.instances as nat, self.memory_bytes as nat, self.cpu_millionths as nat, opt_view(self.exe))
    }
}

pub open spec fn rows_view(v: Seq<ProcessRow>) -> Seq<RowView> {
    v.map_values(|r: ProcessRow| r@)
}

/// The key a row is folded under: the normalised name of its first instance.
pub open spec fn row_key(r: RowView) -> Seq<char> {
    normalized(r.0)
}

/// The first row folded under `key`, from `i` on.
pub open spec fn find_row(rows: Seq<RowView>, key: Seq<char>, i: int) -> Option<int>
    decreases rows.len() - i,
{
    if i < 0 || i >= rows.len() {
        None
    } else if row_key(rows[i]) == key {
        Some(i)
    } else {
        find_row(rows, key, i + 1)
    }
}

/// The row a program starts with.
pub open spec fn new_row(p: ProcessInfo) -> RowView {
    (p.name@, 1, p.memory_bytes as nat, p.cpu_millionths as nat, opt_view(p.exe))
}

/// A row with one more instance: counts and sums grow, and the executable
/// is taken from the first instance that has one.
pub open spec fn bump(r: RowView, p: ProcessInfo) -> RowView {
    (r.0, r.1 + 1, r.2 + (p.memory_bytes as nat), r.3 + (p.cpu_millionths as nat), if r.4 is None { opt_view(p.exe) } else { r.4 })
}

/// The rows in the order their programs were first seen; processes whose
/// name normalises to nothing are left out.
pub open spec fn fold_rows(procs: Seq<ProcessInfo>) -> Seq<RowView>
    decreases procs.len(),
{
    if procs.len() == 0 {
        Seq::empty()
    } else {
        let rows = fold_rows(procs.drop_last());
        let p = procs.last();
        let key = normalized(p.name@);
        if key.len() == 0 {
            rows
        } else {
            match find_row(rows, key, 0) {
                Some(i) => rows.update(i, bump(rows[i], p)),
                None => rows.push(new_row(p)),
            }
        }
    }
}

/// Heavier first; equal weights by key, as the map the rows were gathered
/// in orders them.
pub open spec fn row_le(a: RowView, b: RowView) -> bool {
    ||| a.2 > b.2
    ||| (a.2 == b.2 && lex_le(row_key(a), row_key(b)))
}

/// Where a stable sort puts `x` among the sorted `s`.
pub open spec fn row_slot(s: Seq<RowView>, x: RowView, i: int) -> int
    decreases s.len() - i,
{
    if i < 0 {
        0
    } else if i >= s.len() {
        s.len() as int
    } else if !row_le(s[i], x) {
        i
    } else {
        row_slot(s, x, i + 1)
    }
}

/// The stable sort of `s` by `row_le`.
pub open spec fn sorted_rows(s: Seq<RowView>) -> Seq<RowView>
    decreases s.len(),
{
    if s.len() == 0 {
        s
    } else {
        let t = sorted_rows(s.drop_last());
        t.insert(row_slot(t, s.last(), 0), s.last())
    }
}

/// The memory of all processes.
pub open spec fn total_memory(procs: Seq<ProcessInfo>) -> nat
    decreases procs.len(),
{
    if procs.len() == 0 {
        0
    } else {
        total_memory(procs.drop_last()) + (procs.last().memory_bytes as nat)
    }
}

/// The CPU use of all processes.
pub open spec fn total_cpu(procs: Seq<ProcessInfo>) -> nat
    decreases procs.len(),
{
    if procs.len() == 0 {
        0
    } else {
        total_cpu(procs.drop_last()) + (procs.last().cpu_millionths as nat)
    }
}

pub open spec fn rows_sorted(s: Seq<RowView>) -> bool {
    forall|i: int, j: int| 0 <= i < j < s.len() ==> row_le(s[i], s[j])
}

proof fn lemma_row_le_total(a: RowView, b: RowView)
    ensures
        row_le(a, b) || row_le(b, a),
{
    lemma_lex_total(row_key(a), row_key(b));
}

proof fn lemma_row_le_trans(a: RowView, b: RowView, c: RowView)
    requires
        row_le(a, b),
        row_le(b, c),
    ensures
        row_le(a, c),
{
    if a.2 == b.2 && b.2 == c.2 {
        lemma_lex_trans(row_key(a), row_key(b), row_key(c));
    }
}

proof fn lemma_row_slot(s: Seq<RowView>, x: RowView, i: int)
    requires
        0 <= i <= s.len(),
        forall|k: int| 0 <= k < i ==> row_le(s[k], x),
    ensures
        i <= row_slot(s, x, i) <= s.len(),
        forall|k: int| 0 <= k < row_slot(s, x, i) ==> row_le(s[k], x),
        row_slot(s, x, i) < s.len() ==> !row_le(s[row_slot(s, x, i)], x),
    decreases s.len() - i,
{
    if i < s.len() && row_le(s[i], x) {
        lemma_row_slot(s, x, i + 1);
    }
}

/// The rows come out heaviest first (equal weights by key), and they are
/// exactly the folded rows, reordered.
pub proof fn lemma_rows_heaviest_first(s: Seq<RowView>)
    ensures
        rows_sorted(sorted_rows(s)),
        sorted_rows(s).to_multiset() == s.to_multiset(),
        sorted_rows(s).len() == s.len(),
    decreases s.len(),
{
    broadcast use vstd::seq_lib::to_multiset_insert, vstd::seq_lib::to_multiset_build;
    if s.len() > 0 {
        let t = sorted_rows(s.drop_last());
        let x = s.last();
        lemma_rows_heaviest_first(s.drop_last());
        lemma_row_slot(t, x, 0);
        let p = row_slot(t, x, 0);
        let r = t.insert(p, x);
        assert(s.drop_last().push(x) =~= s);
        assert forall|i: int, j: int| 0 <= i < j < r.len() implies row_le(r[i], r[j]) by {
            if j < p {
                assert(r[i] == t[i] && r[j] == t[j]);
            } else if j == p {
                assert(r[i] == t[i]);
            } else if i == p {
                assert(r[j] == t[j - 1]);
                lemma_row_le_total(t[p], x);
                if j - 1 > p {
                    lemma_row_le_trans(x, t[p], t[j - 1]);
                }
            } else if i < p {
                assert(r[i] == t[i] && r[j] == t[j - 1]);
            } else {
                assert(r[i] == t[i - 1] && r[j] == t[j - 1]);
            }
        }
    }
}

proof fn lemma_totals_grow(procs: Seq<ProcessInfo>, i: int, j: int)
    requires
        0 <= i <= j <= procs.len(),
    ensures
        total_memory(procs.take(i)) <= total_memory(procs.take(j)),
        total_cpu(procs.take(i)) <= total_cpu(procs.take(j)),
    decreases j - i,
{
    if i < j {
        lemma_totals_grow(procs, i, j - 1);
        assert(procs.take(j).drop_last() =~= procs.take(j - 1));
    }
}

/// Every row weighs no more than all the processes folded so far.
pub open spec fn rows_bounded(rows: Seq<RowView>, procs: Seq<ProcessInfo>) -> bool {
    forall|k: int| 0 <= k < rows.len() ==> {
        &&& (#[trigger] rows[k]).1 <= procs.len()
        &&& rows[k].2 <= total_memory(procs)
        &&& rows[k].3 <= total_cpu(procs)
    }
}

proof fn lemma_find_row_range(rows: Seq<RowView>, key: Seq<char>, i: int)
    requires
        0 <= i,
    ensures
        find_row(rows, key, i) matches Some(j) ==> i <= j < rows.len() && row_key(rows[j]) == key,
    decreases rows.len() - i,
{
    if i < rows.len() && row_key(rows[i]) != key {
        lemma_find_row_range(rows, key, i + 1);
    }
}

proof fn lemma_fold_bounded(procs: Seq<ProcessInfo>)
    ensures
        rows_bounded(fold_rows(procs), procs),
    decreases procs.len(),
{
    if procs.len() > 0 {
        let rest = procs.drop_last();
        lemma_fold_bounded(rest);
        let rows = fold_rows(rest);
        let p = procs.last();
        let key = normalized(p.name@);
        lemma_find_row_range(rows, key, 0);
        assert(total_memory(procs) == total_memory(rest) + p.memory_bytes);
        assert(total_cpu(procs) == total_cpu(rest) + p.cpu_millionths);
        let out = fold_rows(procs);
        assert forall|k: int| 0 <= k < out.len() implies {
            &&& (#[trigger] out[k]).1 <= procs.len()
            &&& out[k].2 <= total_memory(procs)
            &&& out[k].3 <= total_cpu(procs)
        } by {
            if key.len() > 0 {
                match find_row(rows, key, 0) {
                    Some(i) => {
                        if k == i {
                            assert(out[k] == bump(rows[i], p));
                        } else {
                            assert(out[k] == rows[k]);
                        }
                    },
                    None => {
                        if k < rows.len() {
                            assert(out[k] == rows[k]);
                        } else {
                            assert(out[k] == new_row(p));
                        }
                    },
                }
            } else {
                assert(out[k] == rows[k]);
            }
        }
    }
}

/// Sorts the rows heaviest first, keeping the order of equal ones.
fn sort_rows(items: Vec<ProcessRow>) -> (r: Vec<ProcessRow>)
    ensures
        rows_view(r@) == sorted_rows(rows_view(items@)),
{
    let ghost all = rows_view(items@);
    let mut items = items;
    let mut out: Vec<ProcessRow> = Vec::new();
    let mut keys: Vec<String> = Vec::new();
    let mut n: usize = 0;
    let count = items.len();
    assert(all.take(0) =~= Seq::<RowView>::empty());
    assert(rows_view(out@) =~= Seq::<RowView>::empty());
    while items.len() > 0
        invariant
            n + items@.len() == count,
            count == all.len(),
            rows_view(items@) == all.skip(n as int),
            rows_view(out@) == sorted_rows(all.take(n as int)),
            keys@.len() == out@.len(),
            forall|k: int| 0 <= k < out@.len() ==> (#[trigger] keys@[k])@ == row_key(out@[k]@),
        decreases items.len(),
    {
        let ghost before = items@;
        let x = items.remove(0);
        let ghost sorted = rows_view(out@);
        assert(rows_view(before)[0] == x@);
        assert(all.skip(n as int)[0] == x@);
        assert forall|k: int| 0 <= k < items@.len() implies rows_view(items@)[k] == all.skip(n + 1)[k] by {
            assert(items@[k] == before[k + 1]);
            assert(rows_view(before)[k + 1] == all.skip(n as int)[k + 1]);
        }
        assert(rows_view(items@) =~= all.skip(n + 1));
        assert(all.take(n + 1).drop_last() =~= all.take(n as int));
        assert(all.take(n + 1).last() == x@);
        let key = normalize(x.name.as_str());
        let mut pos: usize = 0;
        while pos < out.len()
            && (out[pos].memory_bytes > x.memory_bytes || (out[pos].memory_bytes == x.memory_bytes && lex_le_str(keys[pos].as_str(), key.as_str())))
            invariant
                pos <= out@.len(),
                sorted == rows_view(out@),
                keys@.len() == out@.len(),
                forall|k: int| 0 <= k < out@.len() ==> (#[trigger] keys@[k])@ == row_key(out@[k]@),
                key@ == row_key(x@),
                row_slot(sorted, x@, 0) == row_slot(sorted, x@, pos as int),
            decreases out.len() - pos,
        {
            pos = pos + 1;
        }
        let ghost old_keys = keys@;
        let ghost old_out = out@;
        out.insert(pos, x);
        keys.insert(pos, key);
        assert(rows_view(out@) =~= sorted.insert(pos as int, x@));
        assert forall|k: int| 0 <= k < out@.len() implies (#[trigger] keys@[k])@ == row_key(out@[k]@) by {
            if k < pos {
                assert(keys@[k] == old_keys[k] && out@[k] == old_out[k]);
            } else if k > pos {
                assert(keys@[k] == old_keys[k - 1] && out@[k] == old_out[k - 1]);
            }
        }
        n = n + 1;
    }
    assert(all.take(count as int) =~= all);
    out
}

/// The index of the first key equal to `key`.
fn find_key(keys: &Vec<String>, key: &String, Ghost(rows): Ghost<Seq<RowView>>) -> (r: Option<usize>)
    requires
        keys@.len() == rows.len(),
        forall|k: int| 0 <= k < rows.len() ==> (#[trigger] keys@[k])@ == row_key(rows[k]),
    ensures
        match r {
            Some(i) => i < rows.len() && find_row(rows, key@, 0) == Some(i as int),
            None => find_row(rows, key@, 0) is None,
        },
{
    let mut i: usize = 0;
    while i < keys.len()
        invariant
            i <= keys@.len(),
            keys@.len() == rows.len(),
            forall|k: int| 0 <= k < rows.len() ==> (#[trigger] keys@[k])@ == row_key(rows[k]),
            find_row(rows, key@, 0) == find_row(rows, key@, i as int),
        decreases keys.len() - i,
    {
        if keys[i] == *key {
            return Some(i);
        }
        assert(keys@[i as int]@ == row_key(rows[i as int]));
        i = i + 1;
    }
    None
}

/// Folds every instance of a program into one row and lists the rows
/// heaviest first; equal weights come in the order of their keys.
pub fn fold_processes(processes: Vec<ProcessInfo>) -> (rows: Vec<ProcessRow>)
    requires
        total_memory(processes@) <= u64::MAX,
        total_cpu(processes@) <= u64::MAX,
    ensures
        rows_view(rows@) == sorted_rows(fold_rows(processes@)),
{
    let ghost procs = processes@;
    let mut rows: Vec<ProcessRow> = Vec::new();
    let mut keys: Vec<String> = Vec::new();
    let mut n: usize = 0;
    assert(procs.take(0) =~= Seq::<ProcessInfo>::empty());
    assert(rows_view(rows@) =~= Seq::<RowView>::empty());
    while n < processes.len()
        invariant
            n <= procs.len(),
            procs == processes@,
            total_memory(procs) <= u64::MAX,
            total_cpu(procs) <= u64::MAX,
            rows_view(rows@) == fold_rows(procs.take(n as int)),
            keys@.len() == rows@.len(),
            forall|k: int| 0 <= k < rows@.len() ==> (#[trigger] keys@[k])@ == row_key(rows@[k]@),
        decreases processes.len() - n,
    {
        assert(procs.take(n + 1).drop_last() =~= procs.take(n as int));
        proof {
            lemma_fold_bounded(procs.take(n + 1));
            lemma_totals_grow(procs, n + 1, procs.len() as int);
            assert(procs.take(procs.len() as int) =~= procs);
        }
        let p = &processes[n];
        let key = normalize(p.name.as_str());
        let ghost rv = rows_view(rows@);
        if crate::text::chars_of(key.as_str()).len() > 0 {
            match find_key(&keys, &key, Ghost(rv)) {
                Some(i) => {
                    let ghost bumped = bump(rv[i as int], *p);
                    assert(fold_rows(procs.take(n + 1)) == rv.update(i as int, bumped));
                    assert(fold_rows(procs.take(n + 1))[i as int] == bumped);
                    let old_row = &rows[i];
                    let row = ProcessRow {
                        name: copy_string(&old_row.name),
                        instances: old_row.instances + 1,
                        memory_bytes: old_row.memory_bytes + p.memory_bytes,
                        cpu_millionths: old_row.cpu_millionths + p.cpu_millionths as u64,
                        exe: if old_row.exe.is_none() { copy_opt(&p.exe) } else { copy_opt(&old_row.exe) },
                    };
                    assert(row@ == bumped);
                    rows.set(i, row);
                    assert(rows_view(rows@) =~= rv.update(i as int, bumped));
                },
                None => {
                    let row = ProcessRow {
                        name: copy_string(&p.name),
                        instances: 1,
                        memory_bytes: p.memory_bytes,
                        cpu_millionths: p.cpu_millionths as u64,
                        exe: copy_opt(&p.exe),
                    };
                    rows.push(row);
                    keys.push(key);
                    assert(rows_view(rows@) =~= rv.push(new_row(*p)));
                },
            }
        }
        n = n + 1;
    }
    assert(procs.take(procs.len() as int) =~= procs);
    sort_rows(rows)
}

} // verus!
