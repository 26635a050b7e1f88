//! Regular-expression matching, delegated to the `regex` crate.
//!
//! The matching itself is not verified. Its result gets a name, so that a
//! caller can state exactly which question it asked.

use vstd::prelude::*;
use crate::text::opt_text;

verus! {

/// The text of capture group `group` in the leftmost match that
/// `regex::Regex::captures` finds for `pattern` in `haystack`; `None` when
/// `regex::Regex::new` rejects `pattern`, when nothing matches, or when the
/// group took no part in the match.
pub uninterp spec fn regex_capture(pattern: Seq<char>, haystack: Seq<char>, group: nat) -> Option<
    Seq<char>,
>;

/// Compiles `pattern` with `regex::Regex::new`, searches with
/// `regex::Regex::captures` and reads one group with
/// `regex::Captures::get`. Nothing is claimed of the outcome beyond its
/// name: it depends on the two texts and the group number alone.
#[verifier::external_body]
pub(crate) fn capture(pattern: &str, haystack: &str, group: usize) -> (out: Option<String>)
    ensures
        opt_text(out) == regex_capture(pattern@, haystack@, group as nat),
{
    match regex::Regex::new(pattern) {
        Ok(re) => match re.captures(haystack) {
            Some(found) => match found.get(group) {
                Some(part) => Some(part.as_str().to_owned()),
                None => None,
            },
            None => None,
        },
        Err(_) => None,
    }
}

} // verus!
