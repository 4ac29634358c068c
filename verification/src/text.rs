//! Character-level text operations with their meaning stated over `Seq<char>`:
//! trimming, ASCII case folding, suffix and prefix tests, and decimal digits.

use vstd::prelude::*;

verus! {

/// Unicode `White_Space`, the set `char::is_whitespace` and `str::trim` use.
pub open spec fn is_white(c: char) -> bool {
    ||| ('\u{9}' <= c && c <= '\u{d}')
    ||| c == ' '
    ||| c == '\u{85}'
    ||| c == '\u{a0}'
    ||| c == '\u{1680}'
    ||| ('\u{2000}' <= c && c <= '\u{200a}')
    ||| c == '\u{2028}'
    ||| c == '\u{2029}'
    ||| c == '\u{202f}'
    ||| c == '\u{205f}'
    ||| c == '\u{3000}'
}

pub fn white(c: char) -> (r: bool)
    ensures
        r == is_white(c),
{
    ('\u{9}' <= c && c <= '\u{d}') || c == ' ' || c == '\u{85}' || c == '\u{a0}' || c
        == '\u{1680}' || ('\u{2000}' <= c && c <= '\u{200a}') || c == '\u{2028}' || c == '\u{2029}'
        || c == '\u{202f}' || c == '\u{205f}' || c == '\u{3000}'
}

/// ASCII upper case folded to lower case; every other character unchanged.
pub open spec fn lower_char(c: char) -> char {
    if 'A' <= c && c <= 'Z' {
        ((c as u32) + 32) as char
    } else {
        c
    }
}

pub fn lower_ascii(c: char) -> (r: char)
    ensures
        r == lower_char(c),
{
    if 'A' <= c && c <= 'Z' {
        let b: u8 = c as u8;
        (b + 32) as char
    } else {
        c
    }
}

/// The characters of a string slice, one by one.
pub fn chars_of(s: &str) -> (v: Vec<char>)
    ensures
        v@ == s@,
{
    let n = s.unicode_len();
    let mut v: Vec<char> = Vec::new();
    let mut i: usize = 0;
    while i < n
        invariant
            n == s@.len(),
            i <= n,
            v@ == s@.take(i as int),
        decreases n - i,
    {
        let c = s.get_char(i);
        v.push(c);
        i = i + 1;
        assert(v@ =~= s@.take(i as int));
    }
    assert(s@.take(n as int) =~= s@);
    v
}

/// `String::push`: appends one character.
#[verifier::external_body]
pub(crate) fn push_char(s: &mut String, c: char)
    ensures
        final(s)@ == old(s)@.push(c),
{
    s.push(c);
}

/// A string holding exactly the given characters.
pub fn string_of(v: &Vec<char>) -> (s: String)
    ensures
        s@ == v@,
{
    let mut s = String::new();
    let mut i: usize = 0;
    while i < v.len()
        invariant
            i <= v.len(),
            s@ == v@.take(i as int),
        decreases v.len() - i,
    {
        push_char(&mut s, v[i]);
        i = i + 1;
        assert(s@ =~= v@.take(i as int));
    }
    assert(v@.take(v.len() as int) =~= v@);
    s
}


pub open spec fn lower(s: Seq<char>) -> Seq<char> {
    s.map_values(|c: char| lower_char(c))
}

/// ASCII lower case raised to upper case; every other character unchanged.
pub open spec fn upper_char(c: char) -> char {
    if 'a' <= c && c <= 'z' {
        ((c as u32) - 32) as char
    } else {
        c
    }
}

/// `str::to_ascii_uppercase`.
pub open spec fn upper(s: Seq<char>) -> Seq<char> {
    s.map_values(|c: char| upper_char(c))
}

/// A change of characters that keeps white space white and everything else
/// not white, and that ASCII lower case cannot tell from the identity.
pub open spec fn case_only(f: spec_fn(char) -> char) -> bool {
    forall|c: char| #[trigger] lower_char(f(c)) == lower_char(c) && is_white(f(c)) == is_white(c)
}

/// Trimming commutes with a change of case only.
pub proof fn lemma_trim_map(s: Seq<char>, f: spec_fn(char) -> char)
    requires
        case_only(f),
    ensures
        trim(s.map_values(f)) == trim(s).map_values(f),
{
    lemma_trim_start_map(s, f);
    lemma_trim_end_map(trim_start(s), f);
}

proof fn lemma_trim_start_map(s: Seq<char>, f: spec_fn(char) -> char)
    requires
        case_only(f),
    ensures
        trim_start(s.map_values(f)) == trim_start(s).map_values(f),
    decreases s.len(),
{
    if s.len() > 0 {
        assert(lower_char(f(s[0])) == lower_char(s[0]));
        if is_white(s[0]) {
            assert(s.map_values(f).drop_first() =~= s.drop_first().map_values(f));
            lemma_trim_start_map(s.drop_first(), f);
        }
    }
}

proof fn lemma_trim_end_map(s: Seq<char>, f: spec_fn(char) -> char)
    requires
        case_only(f),
    ensures
        trim_end(s.map_values(f)) == trim_end(s).map_values(f),
    decreases s.len(),
{
    if s.len() > 0 {
        assert(lower_char(f(s.last())) == lower_char(s.last()));
        if is_white(s.last()) {
            assert(s.map_values(f).drop_last() =~= s.drop_last().map_values(f));
            lemma_trim_end_map(s.drop_last(), f);
        }
    }
}

/// Lower-casing and upper-casing change case only.
pub proof fn lemma_case_maps()
    ensures
        case_only(|c: char| lower_char(c)),
        case_only(|c: char| upper_char(c)),
{
    assert forall|c: char| #[trigger] lower_char(lower_char(c)) == lower_char(c) && is_white(lower_char(c)) == is_white(c) by {
        if 'A' <= c && c <= 'Z' {
            assert('a' <= lower_char(c) && lower_char(c) <= 'z');
        }
    }
    assert forall|c: char| #[trigger] lower_char(upper_char(c)) == lower_char(c) && is_white(upper_char(c)) == is_white(c) by {
        if 'a' <= c && c <= 'z' {
            assert('A' <= upper_char(c) && upper_char(c) <= 'Z');
            assert(lower_char(upper_char(c)) == c);
        }
    }
}

/// What `str::trim_start` leaves.
pub open spec fn trim_start(s: Seq<char>) -> Seq<char>
    decreases s.len(),
{
    if s.len() > 0 && is_white(s[0]) {
        trim_start(s.drop_first())
    } else {
        s
    }
}

/// What `str::trim_end` leaves.
pub open spec fn trim_end(s: Seq<char>) -> Seq<char>
    decreases s.len(),
{
    if s.len() > 0 && is_white(s.last()) {
        trim_end(s.drop_last())
    } else {
        s
    }
}

/// What `str::trim` leaves: no white space at either end.
pub open spec fn trim(s: Seq<char>) -> Seq<char> {
    trim_end(trim_start(s))
}

pub open spec fn ends_with(s: Seq<char>, suffix: Seq<char>) -> bool {
    suffix.len() <= s.len() && s.subrange(s.len() - suffix.len(), s.len() as int) == suffix
}

pub open spec fn starts_with(s: Seq<char>, prefix: Seq<char>) -> bool {
    prefix.len() <= s.len() && s.subrange(0, prefix.len() as int) == prefix
}

/// Whether `needle` occurs somewhere in `s`.
pub open spec fn contains(s: Seq<char>, needle: Seq<char>) -> bool {
    exists|i: int| 0 <= i && i + needle.len() <= s.len() && #[trigger] s.subrange(i, i + needle.len()) == needle
}

/// ASCII-case-insensitive equality, as `str::eq_ignore_ascii_case` compares.
pub open spec fn eq_ignore_case(a: Seq<char>, b: Seq<char>) -> bool {
    lower(a) == lower(b)
}

pub proof fn lemma_trim_start_skip(s: Seq<char>, i: int)
    requires
        0 <= i < s.len(),
        is_white(s[i]),
    ensures
        trim_start(s.skip(i)) == trim_start(s.skip(i + 1)),
{
    assert(s.skip(i).drop_first() =~= s.skip(i + 1));
}

pub proof fn lemma_trim_end_take(s: Seq<char>, j: int)
    requires
        0 < j <= s.len(),
        is_white(s[j - 1]),
    ensures
        trim_end(s.take(j)) == trim_end(s.take(j - 1)),
{
    assert(s.take(j).drop_last() =~= s.take(j - 1));
}

/// The bounds `[start, end)` of `trim(v)` inside `v`.
pub fn trim_bounds(v: &Vec<char>) -> (r: (usize, usize))
    ensures
        r.0 <= r.1 <= v@.len(),
        v@.subrange(r.0 as int, r.1 as int) == trim(v@),
{
    let n = v.len();
    let mut i: usize = 0;
    assert(v@.skip(0) =~= v@);
    while i < n && white(v[i])
        invariant
            i <= n == v@.len(),
            trim_start(v@) == trim_start(v@.skip(i as int)),
        decreases n - i,
    {
        proof {
            lemma_trim_start_skip(v@, i as int);
        }
        i = i + 1;
    }
    assert(v@.skip(0) =~= v@);
    assert(trim_start(v@) == v@.skip(i as int));
    let ghost rest = v@.skip(i as int);
    assert(rest.take((n - i) as int) =~= rest);
    let mut j: usize = n;
    while j > i && white(v[j - 1])
        invariant
            i <= j <= n == v@.len(),
            rest == v@.skip(i as int),
            trim_end(rest) == trim_end(rest.take(j - i)),
        decreases j,
    {
        proof {
            lemma_trim_end_take(rest, (j - i) as int);
        }
        j = j - 1;
    }
    assert(rest.take((n - i) as int) =~= rest);
    assert(trim_end(rest) == rest.take(j - i));
    assert(v@.subrange(i as int, j as int) =~= rest.take(j - i));
    (i, j)
}

/// The characters `v[start..end]` folded to ASCII lower case.
pub fn lower_range(v: &Vec<char>, start: usize, end: usize) -> (s: String)
    requires
        start <= end <= v@.len(),
    ensures
        s@ == lower(v@.subrange(start as int, end as int)),
{
    let mut s = String::new();
    let mut i: usize = start;
    while i < end
        invariant
            start <= i <= end <= v@.len(),
            s@ == lower(v@.subrange(start as int, i as int)),
        decreases end - i,
    {
        push_char(&mut s, lower_ascii(v[i]));
        i = i + 1;
        assert(s@ =~= lower(v@.subrange(start as int, i as int)));
    }
    s
}

/// The string slice folded to ASCII lower case, as `str::to_ascii_lowercase`.
pub fn to_lower(s: &str) -> (r: String)
    ensures
        r@ == lower(s@),
{
    let v = chars_of(s);
    let r = lower_range(&v, 0, v.len());
    assert(v@.subrange(0, v@.len() as int) =~= v@);
    r
}

/// Whether `v[start..end]` equals `pat`.
pub fn range_eq(v: &Vec<char>, start: usize, end: usize, pat: &Vec<char>) -> (r: bool)
    requires
        start <= end <= v@.len(),
    ensures
        r == (v@.subrange(start as int, end as int) == pat@),
{
    if end - start != pat.len() {
        return false;
    }
    let mut k: usize = 0;
    while k < pat.len()
        invariant
            end - start == pat@.len(),
            start <= end <= v@.len(),
            k <= pat@.len(),
            forall|m: int| 0 <= m < k ==> v@[start + m] == pat@[m],
        decreases pat.len() - k,
    {
        if v[start + k] != pat[k] {
            assert(v@.subrange(start as int, end as int)[k as int] != pat@[k as int]);
            return false;
        }
        k = k + 1;
    }
    assert(v@.subrange(start as int, end as int) =~= pat@);
    true
}

/// Whether two character vectors are equal.
pub fn chars_eq(a: &Vec<char>, b: &Vec<char>) -> (r: bool)
    ensures
        r == (a@ == b@),
{
    let r = range_eq(a, 0, a.len(), b);
    assert(a@.subrange(0, a@.len() as int) =~= a@);
    r
}

/// `s.ends_with(suffix)`.
pub fn ends_with_str(s: &str, suffix: &str) -> (r: bool)
    ensures
        r == ends_with(s@, suffix@),
{
    let v = chars_of(s);
    let p = chars_of(suffix);
    if p.len() > v.len() {
        return false;
    }
    range_eq(&v, v.len() - p.len(), v.len(), &p)
}

/// `s.starts_with(prefix)`.
pub fn starts_with_str(s: &str, prefix: &str) -> (r: bool)
    ensures
        r == starts_with(s@, prefix@),
{
    let v = chars_of(s);
    let p = chars_of(prefix);
    if p.len() > v.len() {
        return false;
    }
    range_eq(&v, 0, p.len(), &p)
}

/// `s.contains(needle)`.
pub fn contains_str(s: &str, needle: &str) -> (r: bool)
    ensures
        r == contains(s@, needle@),
{
    let v = chars_of(s);
    let p = chars_of(needle);
    if p.len() > v.len() {
        assert(!contains(s@, needle@));
        return false;
    }
    if p.len() == 0 {
        assert(s@.subrange(0, 0 + needle@.len() as int) =~= needle@);
        return true;
    }
    let last = v.len() - p.len();
    let mut i: usize = 0;
    while i <= last
        invariant
            v@ == s@,
            p@ == needle@,
            p@.len() <= v@.len(),
            0 < p@.len(),
            last == v@.len() - p@.len(),
            last < v@.len(),
            v@.len() == v.len(),
            i <= last + 1,
            forall|k: int| 0 <= k < i ==> #[trigger] s@.subrange(k, k + needle@.len()) != needle@,
        decreases last + 1 - i,
    {
        if range_eq(&v, i, i + p.len(), &p) {
            return true;
        }
        i = i + 1;
    }
    assert forall|k: int| 0 <= k && k + needle@.len() <= s@.len() implies #[trigger] s@.subrange(k, k + needle@.len()) != needle@ by {
        assert(k < i);
    }
    false
}

/// ASCII-case-insensitive comparison, as `str::eq_ignore_ascii_case`.
pub fn eq_ignore_case_str(a: &str, b: &str) -> (r: bool)
    ensures
        r == eq_ignore_case(a@, b@),
{
    let la = to_lower(a);
    let lb = to_lower(b);
    la == lb
}


/// How many bytes UTF-8 uses for one character.
pub open spec fn char_width(c: char) -> nat {
    if (c as u32) < 0x80 {
        1
    } else if (c as u32) < 0x800 {
        2
    } else if (c as u32) < 0x10000 {
        3
    } else {
        4
    }
}

/// The length in bytes of the UTF-8 encoding, what `str::len` counts.
pub open spec fn byte_len(s: Seq<char>) -> nat
    decreases s.len(),
{
    if s.len() == 0 {
        0
    } else {
        byte_len(s.drop_last()) + char_width(s.last())
    }
}

/// `min(byte_len(v), cap)`: enough to compare a byte length with a bound.
pub fn byte_len_capped(v: &Vec<char>, cap: u64) -> (r: u64)
    ensures
        r == if byte_len(v@) < cap { byte_len(v@) } else { cap as nat },
{
    let mut acc: u64 = 0;
    let mut i: usize = 0;
    while i < v.len()
        invariant
            i <= v@.len(),
            acc == if byte_len(v@.take(i as int)) < cap { byte_len(v@.take(i as int)) } else { cap as nat },
        decreases v.len() - i,
    {
        let c = v[i];
        let w: u64 = if (c as u32) < 0x80 {
            1
        } else if (c as u32) < 0x800 {
            2
        } else if (c as u32) < 0x10000 {
            3
        } else {
            4
        };
        assert(v@.take(i + 1).drop_last() =~= v@.take(i as int));
        if acc < cap {
            acc = if cap - acc < w { cap } else { acc + w };
        }
        i = i + 1;
    }
    assert(v@.take(v@.len() as int) =~= v@);
    acc
}


/// The decimal digit for `d < 10`.
pub open spec fn digit(d: nat) -> char {
    ((d + 48) as u32) as char
}

/// The decimal representation of `n`, most significant digit first.
pub open spec fn decimal(n: nat) -> Seq<char>
    decreases n,
{
    if n < 10 {
        seq![digit(n)]
    } else {
        decimal(n / 10).push(digit(n % 10))
    }
}

/// Appends the decimal representation of `n`.
pub fn push_decimal(s: &mut String, n: u64)
    ensures
        final(s)@ == old(s)@ + decimal(n as nat),
    decreases n,
{
    if n >= 10 {
        push_decimal(s, n / 10);
    }
    let d: u8 = (n % 10) as u8;
    push_char(s, (d + 48) as char);
    assert(final(s)@ =~= old(s)@ + decimal(n as nat));
}

/// The decimal representation of `n` as a string.
pub fn to_decimal(n: u64) -> (s: String)
    ensures
        s@ == decimal(n as nat),
{
    let mut s = String::new();
    push_decimal(&mut s, n);
    assert(s@ =~= decimal(n as nat));
    s
}


/// The pieces of `s` between `\n` characters; always at least one.
pub open spec fn newline_pieces(s: Seq<char>) -> Seq<Seq<char>>
    decreases s.len(),
{
    if s.len() == 0 {
        seq![Seq::empty()]
    } else {
        let r = newline_pieces(s.drop_last());
        if s.last() == '\n' {
            r.push(Seq::empty())
        } else {
            r.update(r.len() - 1, r.last().push(s.last()))
        }
    }
}

/// A line ended by `\n` loses a `\r` just before it.
pub open spec fn without_cr(line: Seq<char>) -> Seq<char> {
    if line.len() > 0 && line.last() == '\r' {
        line.drop_last()
    } else {
        line
    }
}

/// What `str::lines` yields: the pieces between `\n`, each ended piece
/// without a trailing `\r`, and no empty piece after a final `\n`.
pub open spec fn lines_of(s: Seq<char>) -> Seq<Seq<char>> {
    let p = newline_pieces(s);
    let ended = p.drop_last().map_values(|l: Seq<char>| without_cr(l));
    if p.last().len() == 0 {
        ended
    } else {
        ended.push(p.last())
    }
}

proof fn lemma_newline_pieces_len(s: Seq<char>)
    ensures
        newline_pieces(s).len() >= 1,
    decreases s.len(),
{
    if s.len() > 0 {
        lemma_newline_pieces_len(s.drop_last());
    }
}

/// The lines of `s`, as `str::lines` splits them.
pub fn lines(s: &str) -> (r: Vec<String>)
    ensures
        crate::plan::strings_view(r@) == lines_of(s@),
{
    let v = chars_of(s);
    let mut pieces: Vec<Vec<char>> = Vec::new();
    let mut current: Vec<char> = Vec::new();
    let mut i: usize = 0;
    assert(v@.take(0) =~= Seq::<char>::empty());
    while i < v.len()
        invariant
            i <= v@.len(),
            v@ == s@,
            pieces@.map_values(|p: Vec<char>| p@).push(current@) == newline_pieces(v@.take(i as int)),
        decreases v.len() - i,
    {
        proof {
            lemma_newline_pieces_len(v@.take(i as int));
        }
        assert(v@.take(i + 1).drop_last() =~= v@.take(i as int));
        let ghost before = pieces@.map_values(|p: Vec<char>| p@).push(current@);
        if v[i] == '\n' {
            let done = current;
            pieces.push(done);
            current = Vec::new();
            assert(pieces@.map_values(|p: Vec<char>| p@).push(current@) =~= before.push(Seq::empty()));
        } else {
            current.push(v[i]);
            assert(pieces@.map_values(|p: Vec<char>| p@).push(current@) =~= before.update(before.len() - 1, before.last().push(v@[i as int])));
        }
        i = i + 1;
    }
    assert(v@.take(v@.len() as int) =~= v@);
    let ghost all = newline_pieces(s@);
    assert(all.drop_last() =~= pieces@.map_values(|p: Vec<char>| p@));
    let mut out: Vec<String> = Vec::new();
    let mut k: usize = 0;
    while k < pieces.len()
        invariant
            k <= pieces@.len(),
            all.drop_last() == pieces@.map_values(|p: Vec<char>| p@),
            crate::plan::strings_view(out@) == all.drop_last().map_values(|l: Seq<char>| without_cr(l)).take(k as int),
        decreases pieces.len() - k,
    {
        let p = &pieces[k];
        let n = if p.len() > 0 && p[p.len() - 1] == '\r' { p.len() - 1 } else { p.len() };
        let line = range_string(p, 0, n);
        assert(p@.subrange(0, n as int) =~= without_cr(p@));
        let ghost before = out@;
        out.push(line);
        assert(crate::plan::strings_view(out@) =~= crate::plan::strings_view(before).push(line@));
        assert(all.drop_last().map_values(|l: Seq<char>| without_cr(l)).take(k + 1) =~= all.drop_last().map_values(|l: Seq<char>| without_cr(l)).take(k as int).push(without_cr(p@)));
        k = k + 1;
    }
    assert(all.drop_last().map_values(|l: Seq<char>| without_cr(l)).take(pieces@.len() as int) =~= all.drop_last().map_values(|l: Seq<char>| without_cr(l)));
    if current.len() > 0 {
        let ghost before = out@;
        let last = string_of(&current);
        out.push(last);
        assert(crate::plan::strings_view(out@) =~= crate::plan::strings_view(before).push(current@));
    }
    out
}

/// The characters `v[start..end]` as a string.
pub fn range_string(v: &Vec<char>, start: usize, end: usize) -> (s: String)
    requires
        start <= end <= v@.len(),
    ensures
        s@ == v@.subrange(start as int, end as int),
{
    let mut s = String::new();
    let mut i: usize = start;
    while i < end
        invariant
            start <= i <= end <= v@.len(),
            s@ == v@.subrange(start as int, i as int),
        decreases end - i,
    {
        push_char(&mut s, v[i]);
        i = i + 1;
        assert(s@ =~= v@.subrange(start as int, i as int));
    }
    s
}


/// `s.trim()`, owned.
pub fn trim_str(s: &str) -> (r: String)
    ensures
        r@ == trim(s@),
{
    let v = chars_of(s);
    let (start, end) = trim_bounds(&v);
    range_string(&v, start, end)
}

/// `s.strip_prefix(prefix)`, owned.
pub fn strip_prefix_str(s: &str, prefix: &str) -> (r: Option<String>)
    ensures
        match r {
            Some(rest) => starts_with(s@, prefix@) && rest@ == s@.skip(prefix@.len() as int),
            None => !starts_with(s@, prefix@),
        },
{
    let v = chars_of(s);
    let p = chars_of(prefix);
    if p.len() > v.len() {
        return None;
    }
    if range_eq(&v, 0, p.len(), &p) {
        let rest = range_string(&v, p.len(), v.len());
        assert(v@.subrange(p@.len() as int, v@.len() as int) =~= s@.skip(prefix@.len() as int));
        Some(rest)
    } else {
        None
    }
}


/// Whether `s` reads exactly `lit`.
pub fn text_is(s: &str, lit: &str) -> (r: bool)
    ensures
        r == (s@ == lit@),
{
    String::from_str(s) == String::from_str(lit)
}

/// What `str::to_lowercase` gives: the full Unicode lower-case mapping.
pub uninterp spec fn unicode_lower(s: Seq<char>) -> Seq<char>;

/// `str::to_lowercase`.
#[verifier::external_body]
pub(crate) fn to_lowercase(s: &str) -> (r: String)
    ensures
        r@ == unicode_lower(s@),
{
    s.to_lowercase()
}

/// `format!("{:?}", s)`: the string quoted and escaped the way `Debug` does.
pub uninterp spec fn debug_text(s: Seq<char>) -> Seq<char>;

/// The `Debug` rendering of a string slice: `format!("{:?}", s)`.
#[verifier::external_body]
pub(crate) fn debug_quoted(s: &str) -> (r: String)
    ensures
        r@ == debug_text(s@),
{
    format!("{:?}", s)
}

} // verus!
