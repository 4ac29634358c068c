//! What the Windows helper script's output means. The script answers with
//! one JSON value, its "envelope"; an `error` string in it is a failure to
//! report, anything else is handed on as JSON.

use vstd::prelude::*;
use crate::text::{chars_of, range_string, trim, trim_str};

verus! {

/// The message when the helper's output is not JSON.
pub const INVALID_DATA: &'static str = "Windows helper returned invalid data";

/// `s` without the byte-order marks (U+FEFF) it starts with.
pub open spec fn without_leading_boms(s: Seq<char>) -> Seq<char>
    decreases s.len(),
{
    if s.len() > 0 && s[0] == '\u{feff}' {
        without_leading_boms(s.drop_first())
    } else {
        s
    }
}

/// `s.trim_start_matches('\u{feff}')`, owned.
fn strip_boms(s: &str) -> (r: String)
    ensures
        r@ == without_leading_boms(s@),
{
    let v = chars_of(s);
    let mut start: usize = 0;
    assert(v@.skip(0) =~= v@);
    while start < v.len() && v[start] == '\u{feff}'
        invariant
            start <= v@.len(),
            v@ == s@,
            without_leading_boms(v@.skip(start as int)) == without_leading_boms(s@),
        decreases v.len() - start,
    {
        assert(v@.skip(start as int).drop_first() =~= v@.skip(start + 1));
        start = start + 1;
    }
    assert(v@.skip(start as int) =~= v@.subrange(start as int, v@.len() as int));
    range_string(&v, start, v.len())
}

/// The view of what `read_envelope` returns.
pub open spec fn envelope_view(r: Option<(Option<String>, String)>) -> Option<(Option<Seq<char>>, Seq<char>)> {
    match r {
        Some((e, j)) => Some((
            match e {
                Some(x) => Some(x@),
                None => None,
            },
            j@,
        )),
        None => None,
    }
}

/// What serde_json reads from a helper's output: `None` when it is not JSON,
/// else the string at `error` (if there is one) and the JSON written out
/// again.
pub uninterp spec fn envelope_of(text: Seq<char>) -> Option<(Option<Seq<char>>, Seq<char>)>;

/// Parses the helper's output with `serde_json::from_str` into a `Value`,
/// reads the string at `error` and writes the value out again with
/// `serde_json::to_string`, which does not fail on a `Value` (its map keys
/// are strings).
#[verifier::external_body]
fn read_envelope(text: &str) -> (r: Option<(Option<String>, String)>)
    ensures
        envelope_view(r) == envelope_of(text@),
{
    let value: serde_json::Value = serde_json::from_str(text).ok()?;
    let error = value.get("error").and_then(|v| v.as_str()).map(String::from);
    let json = serde_json::to_string(&value).ok()?;
    Some((error, json))
}

/// What the helper answered: its byte-order marks and surrounding white
/// space dropped, the output must be JSON; an `error` string in it is the
/// failure, otherwise the answer is the JSON written out again.
pub fn helper_result(output: &str) -> (r: Result<String, String>)
    ensures
        match envelope_of(trim(without_leading_boms(output@))) {
            None => r matches Err(m) && m@ == INVALID_DATA@,
            Some((Some(e), _)) => r matches Err(m) && m@ == e,
            Some((None, json)) => r matches Ok(t) && t@ == json,
        },
{
    let stripped = strip_boms(output);
    let text = trim_str(stripped.as_str());
    match read_envelope(text.as_str()) {
        None => Err(String::from_str(INVALID_DATA)),
        Some((Some(e), _)) => Err(e),
        Some((None, json)) => Ok(json),
    }
}

} // verus!
