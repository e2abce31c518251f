//! The one place where the library asks a regular-expression engine.

use vstd::prelude::*;

verus! {

/// What the first capture group of the leftmost match of the regular
/// expression `pattern` in `haystack` holds. `None` where `pattern` is no
/// valid expression, where it matches nowhere in `haystack`, or where the
/// group takes no part in the match.
pub uninterp spec fn first_capture(pattern: Seq<char>, haystack: Seq<char>) -> Option<Seq<char>>;

/// Compiles `pattern` with `regex::Regex::new`, searches `haystack` with
/// `Regex::captures` and copies the text of group 1 (`Captures::get`,
/// `Match::as_str`).
///
/// Trusted: the contract only gives the outcome its name, `first_capture`.
/// It claims that the outcome depends on the two texts alone, and nothing
/// about which text is captured.
#[verifier::external_body]
pub(crate) fn capture_first(pattern: &str, haystack: &str) -> (found: Option<String>)
    ensures
        found is Some <==> first_capture(pattern@, haystack@) is Some,
        found matches Some(text) ==> first_capture(pattern@, haystack@) == Some(text@),
{
    match regex::Regex::new(pattern) {
        Ok(expression) => match expression.captures(haystack) {
            Some(groups) => match groups.get(1) {
                Some(group) => Some(group.as_str().to_string()),
                None => None,
            },
            None => None,
        },
        Err(_) => None,
    }
}

} // verus!
