//! One error type for the domain. Every variant carries the context a user
//! needs to act on it (which file, which value) rather than a bare cause.

use vstd::prelude::*;

verus! {

#[verifier::external_type_specification]
#[verifier::external_body]
pub struct ExIoError(std::io::Error);

#[verifier::external_type_specification]
#[verifier::external_body]
pub struct ExJsonError(serde_json::Error);

#[derive(Debug)]
pub enum CoreError {
    Io { context: String, source: std::io::Error },
    Json { context: String, source: serde_json::Error },
    Invalid(String),
    NoDataDir,
}

/// `Display` of an I/O error. Nothing is stated of the text: the operating
/// system's message in it depends on the machine's language.
#[verifier::external_body]
pub(crate) fn io_text(e: &std::io::Error) -> String {
    e.to_string()
}

/// `Display` of a JSON error. Nothing is stated of the text: for an error
/// that came from reading, it holds the operating system's message, which
/// depends on the machine's language.
#[verifier::external_body]
pub(crate) fn json_text(e: &serde_json::Error) -> String {
    e.to_string()
}

/// `context`, a colon and a space, then the cause.
pub open spec fn caused(r: Seq<char>, context: Seq<char>) -> bool {
    r.len() >= context.len() + 2 && r.subrange(0, context.len() + 2int) == context + ": "@
}

/// `context: cause`.
pub(crate) fn with_cause(context: &String, cause: String) -> (r: String)
    ensures
        caused(r@, context@),
        r@ == context@ + ": "@ + cause@,
{
    let mut m = context.clone();
    m.append(": ");
    let ghost head = m@;
    m.append(cause.as_str());
    proof {
        reveal_strlit(": ");
    }
    assert(m@.subrange(0, context@.len() + 2int) =~= head);
    m
}

/// Whether `r` is the message of `e`.
pub open spec fn core_message(e: CoreError, r: Seq<char>) -> bool {
    match e {
        CoreError::Io { context, .. } => caused(r, context@),
        CoreError::Json { context, .. } => caused(r, context@),
        CoreError::Invalid(x) => r == x@,
        CoreError::NoDataDir => r == "no configuration directory is available on this system"@,
    }
}

impl CoreError {
    /// The message shown to the user.
    pub fn message(&self) -> (r: String)
        ensures
            core_message(*self, r@),
    {
        match self {
            CoreError::Io { context, source } => with_cause(context, io_text(source)),
            CoreError::Json { context, source } => with_cause(context, json_text(source)),
            CoreError::Invalid(x) => x.clone(),
            CoreError::NoDataDir => String::from_str("no configuration directory is available on this system"),
        }
    }

    pub fn io(context: String, source: std::io::Error) -> (e: CoreError)
        ensures
            e matches CoreError::Io { context: c, source: s } && c@ == context@ && s == source,
    {
        CoreError::Io { context, source }
    }

    pub fn json(context: String, source: serde_json::Error) -> (e: CoreError)
        ensures
            e matches CoreError::Json { context: c, source: s } && c@ == context@ && s == source,
    {
        CoreError::Json { context, source }
    }
}

} // verus!
