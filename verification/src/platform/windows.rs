//! The Windows adapter's decisions: what it can do with and without an
//! elevated token, and the command line for the elevated relaunch.

use vstd::prelude::*;
use crate::plan::{strings_view, Capabilities};
use crate::text::{chars_of, contains, contains_str};

verus! {

/// What the Windows adapter can do: services and the standby-list purge
/// need an elevated token; without one the app can ask for it.
pub fn capabilities(elevated: bool) -> (c: Capabilities)
    ensures
        c == (Capabilities { services: elevated, power: true, memory_purge: elevated, elevated, can_elevate: !elevated }),
{
    Capabilities { services: elevated, power: true, memory_purge: elevated, elevated, can_elevate: !elevated }
}

/// `s` with every `"` preceded by a backslash.
pub open spec fn escape_quotes(s: Seq<char>) -> Seq<char>
    decreases s.len(),
{
    if s.len() == 0 {
        s
    } else if s.last() == '"' {
        escape_quotes(s.drop_last()) + seq!['\\', '"']
    } else {
        escape_quotes(s.drop_last()).push(s.last())
    }
}

/// One argument as the command line carries it: quoted when it holds a
/// space or a quote.
pub open spec fn quoted(arg: Seq<char>) -> Seq<char> {
    if arg.contains(' ') || arg.contains('"') {
        seq!['"'] + escape_quotes(arg) + seq!['"']
    } else {
        arg
    }
}

/// The parts joined with single spaces.
pub open spec fn joined(parts: Seq<Seq<char>>) -> Seq<char>
    decreases parts.len(),
{
    if parts.len() == 0 {
        Seq::empty()
    } else if parts.len() == 1 {
        parts[0]
    } else {
        joined(parts.drop_last()) + seq![' '] + parts.last()
    }
}

fn quote_one(arg: &String) -> (r: Vec<char>)
    ensures
        r@ == quoted(arg@),
{
    let v = chars_of(arg.as_str());
    let mut special = false;
    let mut i: usize = 0;
    while i < v.len()
        invariant
            i <= v@.len(),
            v@ == arg@,
            special == exists|k: int| 0 <= k < i && (v@[k] == ' ' || v@[k] == '"'),
        decreases v.len() - i,
    {
        if v[i] == ' ' || v[i] == '"' {
            special = true;
        }
        i = i + 1;
    }
    assert(special == (arg@.contains(' ') || arg@.contains('"'))) by {
        if arg@.contains(' ') {
            let k = choose|k: int| 0 <= k < arg@.len() && arg@[k] == ' ';
            assert(v@[k] == ' ');
        }
        if arg@.contains('"') {
            let k = choose|k: int| 0 <= k < arg@.len() && arg@[k] == '"';
            assert(v@[k] == '"');
        }
    }
    if !special {
        return v;
    }
    let mut out: Vec<char> = Vec::new();
    out.push('"');
    let mut j: usize = 0;
    assert(v@.take(0) =~= Seq::<char>::empty());
    assert(out@ =~= seq!['"'] + escape_quotes(v@.take(0)));
    while j < v.len()
        invariant
            j <= v@.len(),
            out@ == seq!['"'] + escape_quotes(v@.take(j as int)),
        decreases v.len() - j,
    {
        assert(v@.take(j + 1).drop_last() =~= v@.take(j as int));
        if v[j] == '"' {
            out.push('\\');
            out.push('"');
        } else {
            out.push(v[j]);
        }
        assert(out@ =~= seq!['"'] + escape_quotes(v@.take(j + 1)));
        j = j + 1;
    }
    out.push('"');
    assert(v@.take(v@.len() as int) =~= v@);
    out
}

/// Quote arguments for a Windows command line. Only this app's own switches
/// pass through here (`--hidden`), never user input.
pub fn quote_args(args: &Vec<String>) -> (r: String)
    ensures
        r@ == joined(strings_view(args@).map_values(|a: Seq<char>| quoted(a))),
{
    let ghost parts = strings_view(args@).map_values(|a: Seq<char>| quoted(a));
    let mut out: Vec<char> = Vec::new();
    let mut i: usize = 0;
    assert(parts.take(0) =~= Seq::<Seq<char>>::empty());
    while i < args.len()
        invariant
            i <= args@.len(),
            parts == strings_view(args@).map_values(|a: Seq<char>| quoted(a)),
            out@ == joined(parts.take(i as int)),
        decreases args.len() - i,
    {
        let q = quote_one(&args[i]);
        assert(parts[i as int] == quoted(args@[i as int]@));
        assert(parts.take(i + 1).drop_last() =~= parts.take(i as int));
        let ghost before = out@;
        if i > 0 {
            out.push(' ');
        }
        let mut k: usize = 0;
        while k < q.len()
            invariant
                k <= q@.len(),
                out@ == (if i > 0 { before + seq![' '] } else { before }) + q@.take(k as int),
            decreases q.len() - k,
        {
            out.push(q[k]);
            assert(q@.take(k + 1) =~= q@.take(k as int).push(q@[k as int]));
            k = k + 1;
        }
        assert(q@.take(q@.len() as int) =~= q@);
        if i == 0 {
            assert(parts.take(1) =~= seq![parts[0]]);
            assert(before =~= Seq::<char>::empty());
            assert(out@ =~= q@);
        }
        i = i + 1;
    }
    assert(parts.take(args@.len() as int) =~= parts);
    crate::text::string_of(&out)
}

/// `taskkill` was refused for lack of rights.
pub open spec fn taskkill_denied(text: Seq<char>) -> bool {
    contains(text, "Access is denied"@)
}

pub fn is_taskkill_denial(text: &str) -> (r: bool)
    ensures
        r == taskkill_denied(text@),
{
    contains_str(text, "Access is denied")
}

} // verus!
