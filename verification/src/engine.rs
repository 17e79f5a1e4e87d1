//! The regular-expression engine that recognizes tokens.
//!
//! Nothing in this file is proved: it states what the rest of the library
//! takes from the `regex` crate.

use regex::Regex;
use vstd::prelude::*;
use vstd::string::StringSliceAdditionalSpecFns;

verus! {

/// `regex::Regex`, a compiled pattern. Its inside is not visible to proofs.
#[verifier::external_type_specification]
#[verifier::external_body]
pub struct ExRegex(regex::Regex);

/// The regex that `Regex::new` builds from `pattern`, when it builds one.
pub uninterp spec fn compiled(pattern: Seq<char>) -> Regex;

/// What `Regex::find_at` reports for a regex, the UTF-8 bytes of a haystack
/// and the offset at which the search starts: the byte offsets of the start
/// and of the end of the leftmost match, or `None` where there is no match.
pub uninterp spec fn regex_find_at(re: Regex, haystack: Seq<u8>, start: usize) -> Option<
    (usize, usize),
>;

/// `Regex::new`, which compiles a pattern with the default options, with its
/// error dropped: `None` where the engine refuses the pattern. A regex that
/// it returns is the one that `compiled` names, so two regexes built from one
/// pattern match alike.
///
/// Whether the engine accepts a pattern is not stated and has no name. It
/// refuses a pattern that is invalid, and also one whose compiled form is
/// larger than its size limit; that size is counted in bytes of the engine's
/// own state type, which is twice as large on a 64-bit target as on a 32-bit
/// one. So the same pattern can be accepted on one machine and refused on
/// another, and callers must be ready for `None` on every pattern.
#[verifier::external_body]
pub(crate) fn compile(pattern: &str) -> (r: Option<Regex>)
    ensures
        r matches Some(built) ==> built == compiled(pattern@),
{
    Regex::new(pattern).ok()
}

/// `Regex::find_at`, with the match reduced to its two byte offsets
/// (`Match::start`, `Match::end`). The search panics when `start` lies beyond
/// the end of the haystack, so callers must keep it within.
#[verifier::external_body]
pub(crate) fn find_at(re: &Regex, haystack: &str, start: usize) -> (r: Option<(usize, usize)>)
    requires
        start <= haystack.spec_bytes().len(),
    ensures
        r == regex_find_at(*re, haystack.spec_bytes(), start),
{
    re.find_at(haystack, start).map(|m| (m.start(), m.end()))
}

} // verus!
