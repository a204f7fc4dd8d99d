//! Regular-expression matching for the `=~` operator, through the
//! `regex` crate.

use vstd::prelude::*;

verus! {

/// Whether the regex engine accepts `pat` as a valid pattern: the
/// success of `regex::Regex::new`, which depends on the pattern alone.
pub uninterp spec fn regex_valid(pat: Seq<char>) -> bool;

/// Whether the pattern `pat` matches anywhere inside `text`: the result
/// of `regex::Regex::is_match`, which depends on the pattern and the
/// haystack alone.
pub uninterp spec fn regex_matches(pat: Seq<char>, text: Seq<char>) -> bool;

/// Relies on `regex::Regex::new` for compiling `pat` (deterministic in
/// the pattern, `Err` exactly on an invalid pattern) and on
/// `regex::Regex::is_match` for testing whether the compiled pattern
/// matches anywhere in `text` (deterministic in pattern and haystack).
#[verifier::external_body]
pub(crate) fn regex_is_match(text: &str, pat: &str) -> (r: Option<bool>)
    ensures
        r is Some <==> regex_valid(pat@),
        match r {
            Some(b) => b == regex_matches(pat@, text@),
            None => !regex_valid(pat@),
        },
{
    match regex::Regex::new(pat) {
        Ok(re) => Some(re.is_match(text)),
        Err(_) => None,
    }
}

} // verus!
