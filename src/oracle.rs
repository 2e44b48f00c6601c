//! The reference regex engine that decides whether a candidate matches.

use vstd::prelude::*;

use crate::tester::Error;

verus! {

/// Whether the `regex` crate accepts `pattern` (syntax and size limits).
pub uninterp spec fn regex_compiles(pattern: Seq<char>) -> bool;

/// Whether the `regex` crate finds a match of `pattern` anywhere in `haystack`.
pub uninterp spec fn regex_finds(pattern: Seq<char>, haystack: Seq<char>) -> bool;

/// Relies on `regex::Regex::new`, which fails exactly on the patterns that the
/// crate does not compile (its error is dropped here), and on
/// `regex::Regex::captures`, which returns `Some` exactly when the pattern
/// matches somewhere in the haystack.
#[verifier::external_body]
fn compile_and_capture(pattern: &str, haystack: &str) -> (r: Option<bool>)
    ensures
        r is Some <==> regex_compiles(pattern@),
        r matches Some(found) ==> found == regex_finds(pattern@, haystack@),
{
    match regex::Regex::new(pattern) {
        Ok(re) => Some(re.captures(haystack).is_some()),
        Err(_) => None,
    }
}

/// Whether `candidate` holds a match of `pattern`. A pattern that the engine
/// cannot compile is an error: no verdict can be trusted then.
pub fn matches(pattern: &str, candidate: &str) -> (r: Result<bool, Error>)
    ensures
        r is Ok <==> regex_compiles(pattern@),
        r matches Ok(found) ==> found == regex_finds(pattern@, candidate@),
        r is Err ==> (r matches Err(Error::PatternCompilationFailed(p)) && p@ == pattern@),
{
    match compile_and_capture(pattern, candidate) {
        Some(found) => Ok(found),
        None => Err(Error::PatternCompilationFailed(pattern.to_owned())),
    }
}

} // verus!
