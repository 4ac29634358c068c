//! Windows power plans through `powercfg`, the supported tool for the job.
//!
//! Ultimate Performance is preferred when the machine exposes it; otherwise
//! High performance. Plan GUIDs pass through a strict format check before
//! reaching the command line, including the one read back from the journal.

use vstd::prelude::*;
use crate::plan::strings_view;
use crate::platform::error::PlatformError;
use crate::snapshot::PowerPlan;
use crate::text::{
    chars_of, debug_quoted, debug_text, is_white, lines, lines_of, lower, range_string, starts_with, strip_prefix_str, to_lower, trim,
    trim_bounds, trim_str, white,
};

verus! {

pub const ULTIMATE: &'static str = "e9a42b02-d5df-448d-aa00-03f14749eb61";
pub const HIGH_PERFORMANCE: &'static str = "8c5e7fda-e8bf-4a96-9a85-a6e23a8c635c";

pub open spec fn hex_digit(c: char) -> bool {
    ('0' <= c && c <= '9') || ('a' <= c && c <= 'f') || ('A' <= c && c <= 'F')
}

/// Five groups of 8, 4, 4, 4 and 12 hexadecimal digits joined by `-`.
pub open spec fn guid(t: Seq<char>) -> bool {
    &&& t.len() == 36
    &&& forall|i: int| 0 <= i < 36 ==> if i == 8 || i == 13 || i == 18 || i == 23 {
        #[trigger] t[i] == '-'
    } else {
        hex_digit(t[i])
    }
}

pub fn is_guid(text: &str) -> (r: bool)
    ensures
        r == guid(text@),
{
    let v = chars_of(text);
    if v.len() != 36 {
        return false;
    }
    let mut i: usize = 0;
    while i < 36
        invariant
            i <= 36,
            v@ == text@,
            v@.len() == 36,
            forall|k: int| 0 <= k < i ==> if k == 8 || k == 13 || k == 18 || k == 23 {
                #[trigger] v@[k] == '-'
            } else {
                hex_digit(v@[k])
            },
        decreases 36 - i,
    {
        let c = v[i];
        let ok = if i == 8 || i == 13 || i == 18 || i == 23 {
            c == '-'
        } else {
            ('0' <= c && c <= '9') || ('a' <= c && c <= 'f') || ('A' <= c && c <= 'F')
        };
        if !ok {
            return false;
        }
        i = i + 1;
    }
    true
}

/// The first position, from `i` on, holding white space.
pub open spec fn first_white(s: Seq<char>, i: int) -> Option<int>
    decreases s.len() - i,
{
    if i < 0 || i >= s.len() {
        None
    } else if is_white(s[i]) {
        Some(i)
    } else {
        first_white(s, i + 1)
    }
}

/// The first position of `c`, from `i` on.
pub open spec fn first_of(s: Seq<char>, c: char, i: int) -> Option<int>
    decreases s.len() - i,
{
    if i < 0 || i >= s.len() {
        None
    } else if s[i] == c {
        Some(i)
    } else {
        first_of(s, c, i + 1)
    }
}

/// The last position of `c` before `n`.
pub open spec fn last_of(s: Seq<char>, c: char, n: int) -> Option<int>
    decreases n,
{
    if n <= 0 || n > s.len() {
        None
    } else if s[n - 1] == c {
        Some(n - 1)
    } else {
        last_of(s, c, n - 1)
    }
}

/// One `powercfg` line, `Power Scheme GUID: <guid>  (<name>) *`, read as a
/// plan: the GUID in lower case, the name between the first `(` and the last
/// `)` of what follows it.
pub open spec fn plan_line(line: Seq<char>) -> Option<(Seq<char>, Seq<char>)> {
    let t = trim(line);
    if !starts_with(t, "Power Scheme GUID:"@) {
        None
    } else {
        let rest = trim(t.skip(18));
        match first_white(rest, 0) {
            None => None,
            Some(w) => {
                let id = lower(trim(rest.take(w)));
                let tail = rest.skip(w + 1);
                match (first_of(tail, '(', 0), last_of(tail, ')', tail.len() as int)) {
                    (Some(start), Some(end)) => if end <= start || !guid(id) {
                        None
                    } else {
                        Some((id, trim(tail.subrange(start + 1, end))))
                    },
                    _ => None,
                }
            },
        }
    }
}

fn find_white(v: &Vec<char>) -> (r: Option<usize>)
    ensures
        match r {
            Some(i) => i < v@.len() && first_white(v@, 0) == Some(i as int),
            None => first_white(v@, 0) is None,
        },
{
    let mut i: usize = 0;
    while i < v.len()
        invariant
            i <= v@.len(),
            first_white(v@, 0) == first_white(v@, i as int),
        decreases v.len() - i,
    {
        if white(v[i]) {
            return Some(i);
        }
        i = i + 1;
    }
    None
}

fn find_char(v: &Vec<char>, c: char) -> (r: Option<usize>)
    ensures
        match r {
            Some(i) => i < v@.len() && first_of(v@, c, 0) == Some(i as int),
            None => first_of(v@, c, 0) is None,
        },
{
    let mut i: usize = 0;
    while i < v.len()
        invariant
            i <= v@.len(),
            first_of(v@, c, 0) == first_of(v@, c, i as int),
        decreases v.len() - i,
    {
        if v[i] == c {
            return Some(i);
        }
        i = i + 1;
    }
    None
}

fn rfind_char(v: &Vec<char>, c: char) -> (r: Option<usize>)
    ensures
        match r {
            Some(i) => i < v@.len() && last_of(v@, c, v@.len() as int) == Some(i as int),
            None => last_of(v@, c, v@.len() as int) is None,
        },
{
    let mut n: usize = v.len();
    while n > 0
        invariant
            n <= v@.len(),
            last_of(v@, c, v@.len() as int) == last_of(v@, c, n as int),
        decreases n,
    {
        if v[n - 1] == c {
            return Some(n - 1);
        }
        n = n - 1;
    }
    None
}

/// Parse one `powercfg` line: `Power Scheme GUID: <guid>  (<name>) *`.
pub fn parse_line(line: &str) -> (r: Option<PowerPlan>)
    ensures
        match r {
            Some(p) => plan_line(line@) == Some(p@),
            None => plan_line(line@) is None,
        },
{
    proof {
        reveal_strlit("Power Scheme GUID:");
    }
    let t = trim_str(line);
    let rest0 = match strip_prefix_str(t.as_str(), "Power Scheme GUID:") {
        Some(rest) => rest,
        None => return None,
    };
    let rest = chars_of(trim_str(rest0.as_str()).as_str());
    let w = match find_white(&rest) {
        Some(w) => w,
        None => return None,
    };
    let id_raw = range_string(&rest, 0, w);
    assert(rest@.subrange(0, w as int) =~= rest@.take(w as int));
    let id = to_lower(trim_str(id_raw.as_str()).as_str());
    let tail_text = range_string(&rest, w + 1, rest.len());
    let tail = chars_of(tail_text.as_str());
    assert(tail@ =~= rest@.skip(w + 1));
    let start = match find_char(&tail, '(') {
        Some(s) => s,
        None => return None,
    };
    let end = match rfind_char(&tail, ')') {
        Some(e) => e,
        None => return None,
    };
    if end <= start {
        return None;
    }
    if !is_guid(id.as_str()) {
        return None;
    }
    let name = trim_str(range_string(&tail, start + 1, end).as_str());
    Some(PowerPlan { id, name })
}

/// The first plan, from position `i` on, with the given id.
pub open spec fn first_id(available: Seq<PowerPlan>, id: Seq<char>, i: int) -> Option<int>
    decreases available.len() - i,
{
    if i < 0 || i >= available.len() {
        None
    } else if available[i].id@ == id {
        Some(i)
    } else {
        first_id(available, id, i + 1)
    }
}

/// The fastest plan offered: the first Ultimate Performance plan, else the
/// first High performance plan.
pub open spec fn chosen(available: Seq<PowerPlan>) -> Option<int> {
    match first_id(available, ULTIMATE@, 0) {
        Some(i) => Some(i),
        None => first_id(available, HIGH_PERFORMANCE@, 0),
    }
}

proof fn lemma_first_id_range(available: Seq<PowerPlan>, id: Seq<char>, i: int)
    ensures
        first_id(available, id, i) matches Some(k) ==> 0 <= k < available.len(),
    decreases available.len() - i,
{
    if 0 <= i < available.len() && available[i].id@ != id {
        lemma_first_id_range(available, id, i + 1);
    }
}

fn find_plan(available: &[PowerPlan], id: &str) -> (r: Option<usize>)
    ensures
        match r {
            Some(i) => i < available@.len() && first_id(available@, id@, 0) == Some(i as int),
            None => first_id(available@, id@, 0) is None,
        },
{
    let wanted = String::from_str(id);
    let mut i: usize = 0;
    while i < available.len()
        invariant
            i <= available@.len(),
            wanted@ == id@,
            first_id(available@, id@, 0) == first_id(available@, id@, i as int),
        decreases available.len() - i,
    {
        if available[i].id == wanted {
            return Some(i);
        }
        i = i + 1;
    }
    None
}

/// Choose the fastest plan the machine offers.
pub fn choose_plan(available: &[PowerPlan]) -> (r: Option<&PowerPlan>)
    ensures
        match r {
            Some(p) => chosen(available@) matches Some(i) && 0 <= i < available@.len() && *p == available@[i],
            None => chosen(available@) is None,
        },
{
    match find_plan(available, ULTIMATE) {
        Some(i) => Some(&available[i]),
        None => match find_plan(available, HIGH_PERFORMANCE) {
            Some(i) => Some(&available[i]),
            None => None,
        },
    }
}

/// The `powercfg` arguments that activate plan `id`, refused unless `id`
/// is a GUID.
pub fn set_active(id: &str) -> (r: Result<Vec<String>, PlatformError>)
    ensures
        guid(id@) ==> (r matches Ok(args) && strings_view(args@) == seq!["/setactive"@, id@]),
        !guid(id@) ==> (r matches Err(PlatformError::Other(m)) && m@ == debug_text(id@) + " is not a power plan GUID"@),
{
    if !is_guid(id) {
        let mut m = debug_quoted(id);
        m.append(" is not a power plan GUID");
        return Err(PlatformError::Other(m));
    }
    let mut args: Vec<String> = Vec::new();
    args.push(String::from_str("/setactive"));
    args.push(String::from_str(id));
    assert(strings_view(args@) =~= seq!["/setactive"@, id@]);
    Ok(args)
}

/// The plans `powercfg /list` shows, in order.
pub open spec fn listed_plans(ls: Seq<Seq<char>>, n: int) -> Seq<(Seq<char>, Seq<char>)>
    decreases n,
{
    if n <= 0 || n > ls.len() {
        Seq::empty()
    } else {
        match plan_line(ls[n - 1]) {
            Some(p) => listed_plans(ls, n - 1).push(p),
            None => listed_plans(ls, n - 1),
        }
    }
}

pub open spec fn plans_view(v: Seq<PowerPlan>) -> Seq<(Seq<char>, Seq<char>)> {
    v.map_values(|p: PowerPlan| p@)
}

/// Every plan line of `powercfg /list` output.
pub fn list(output: &str) -> (r: Vec<PowerPlan>)
    ensures
        plans_view(r@) == listed_plans(lines_of(output@), lines_of(output@).len() as int),
{
    let all = lines(output);
    let ghost ls = lines_of(output@);
    let mut plans: Vec<PowerPlan> = Vec::new();
    let mut i: usize = 0;
    assert(plans_view(plans@) =~= Seq::<(Seq<char>, Seq<char>)>::empty());
    while i < all.len()
        invariant
            i <= all@.len(),
            ls == strings_view(all@),
            plans_view(plans@) == listed_plans(ls, i as int),
        decreases all.len() - i,
    {
        assert(ls[i as int] == all@[i as int]@);
        if let Some(p) = parse_line(all[i].as_str()) {
            let ghost before = plans@;
            plans.push(p);
            assert(plans_view(plans@) =~= plans_view(before).push(p@));
        }
        i = i + 1;
    }
    plans
}

/// The first plan line of `powercfg /getactivescheme` output.
pub open spec fn first_plan(ls: Seq<Seq<char>>, i: int) -> Option<(Seq<char>, Seq<char>)>
    decreases ls.len() - i,
{
    if i < 0 || i >= ls.len() {
        None
    } else {
        match plan_line(ls[i]) {
            Some(p) => Some(p),
            None => first_plan(ls, i + 1),
        }
    }
}

/// The active plan from `powercfg /getactivescheme` output.
pub fn active(output: &str) -> (r: Result<PowerPlan, PlatformError>)
    ensures
        match first_plan(lines_of(output@), 0) {
            Some(p) => r matches Ok(q) && q@ == p,
            None => r matches Err(PlatformError::Other(m)) && m@ == "could not read the active power plan from: "@ + output@,
        },
{
    let all = lines(output);
    let ghost ls = lines_of(output@);
    let mut i: usize = 0;
    while i < all.len()
        invariant
            i <= all@.len(),
            ls == strings_view(all@),
            ls == lines_of(output@),
            first_plan(ls, 0) == first_plan(ls, i as int),
        decreases all.len() - i,
    {
        assert(ls[i as int] == all@[i as int]@);
        if let Some(p) = parse_line(all[i].as_str()) {
            return Ok(p);
        }
        i = i + 1;
    }
    let mut m = String::from_str("could not read the active power plan from: ");
    m.append(output);
    Err(PlatformError::Other(m))
}

/// Which plan to activate for Quiet Mode, given the one active now: the
/// fastest installed plan, or nothing to do when it is already active.
pub fn set_performance(previous: &PowerPlan, available: &[PowerPlan]) -> (r: Result<Option<String>, PlatformError>)
    ensures
        match chosen(available@) {
            None => r matches Err(PlatformError::Unsupported(m)) && m@ == "no performance power plan is installed"@,
            Some(i) => if available@[i].id@ == previous.id@ {
                r matches Ok(None)
            } else {
                r matches Ok(Some(id)) && id@ == available@[i].id@
            },
        },
{
    match choose_plan(available) {
        None => Err(PlatformError::Unsupported(String::from_str("no performance power plan is installed"))),
        Some(p) => {
            if p.id == previous.id {
                Ok(None)
            } else {
                Ok(Some(p.id.clone()))
            }
        },
    }
}

} // verus!
