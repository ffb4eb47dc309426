//! Filename matching against the configured regular expression. The regex
//! engine is an outside library; what it decides is named here and every
//! use in the resolution pass goes through these two functions. The pattern
//! is compiled afresh on each query so that both contracts speak of plain
//! strings alone; the inputs of a resolution pass are small enough that
//! this costs nothing noticeable.
use vstd::prelude::*;

verus! {

/// Whether `p` is a valid regular expression. The name stands for what
/// `regex::Regex::new` decides; it depends on the pattern string alone.
pub uninterp spec fn pattern_compiles(p: Seq<char>) -> bool;

/// Whether the regular expression `p` matches somewhere in `text`. The name
/// stands for what `regex::Regex::is_match` decides on a pattern compiled
/// from `p`; it depends on the two strings alone.
pub uninterp spec fn pattern_matches(p: Seq<char>, text: Seq<char>) -> bool;

/// Relies on `regex::Regex::new`: it returns `Ok` or `Err` as a function of
/// the pattern string alone.
#[verifier::external_body]
pub(crate) fn regex_compiles(pattern: &str) -> (r: bool)
    ensures
        r == pattern_compiles(pattern@),
{
    regex::Regex::new(pattern).is_ok()
}

/// Relies on `regex::Regex::new` and `regex::Regex::is_match`: compiling a
/// valid pattern and asking whether it matches a haystack is a function of
/// the two strings alone. The `Err` arm is unreachable under the
/// precondition.
#[verifier::external_body]
pub(crate) fn regex_is_match(pattern: &str, text: &str) -> (r: bool)
    requires
        pattern_compiles(pattern@),
    ensures
        r == pattern_matches(pattern@, text@),
{
    match regex::Regex::new(pattern) {
        Ok(re) => re.is_match(text),
        Err(_) => false,
    }
}

} // verus!
