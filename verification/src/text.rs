//! Sequence-level vocabulary for names and paths, and the string
//! operations of the standard library that the search relies on.

use vstd::prelude::*;

verus! {

/// `p` is an initial segment of `s`.
pub open spec fn is_prefix_of(p: Seq<char>, s: Seq<char>) -> bool {
    p.len() <= s.len() && s.subrange(0, p.len() as int) == p
}

/// `p` is a final segment of `s`.
pub open spec fn is_suffix_of(p: Seq<char>, s: Seq<char>) -> bool {
    p.len() <= s.len() && s.subrange(s.len() - p.len(), s.len() as int) == p
}

/// `needle` occurs in `hay` starting at position `i`.
pub open spec fn occurs_at(needle: Seq<char>, hay: Seq<char>, i: int) -> bool {
    0 <= i && i + needle.len() <= hay.len() && hay.subrange(i, i + needle.len()) == needle
}

/// `needle` occurs somewhere in `hay` as a contiguous run.
pub open spec fn contains_seq(hay: Seq<char>, needle: Seq<char>) -> bool {
    exists|i: int| occurs_at(needle, hay, i)
}

/// The lowercase form of a string as the standard library computes it
/// (full Unicode case mapping). Left uninterpreted: contracts only rely
/// on it being a function of the characters.
pub uninterp spec fn lowercase(s: Seq<char>) -> Seq<char>;

/// The empty sequence occurs in every sequence.
pub proof fn lemma_empty_occurs_everywhere(hay: Seq<char>, needle: Seq<char>)
    requires
        needle.len() == 0,
    ensures
        contains_seq(hay, needle),
{
    assert(hay.subrange(0, 0) =~= needle);
    assert(occurs_at(needle, hay, 0));
}

/// Trusted: `str::to_lowercase`. The result is the standard library's
/// lowercase mapping of the input, and the empty string maps to the
/// empty string.
#[verifier::external_body]
pub(crate) fn to_lowercase(s: &str) -> (r: String)
    ensures
        r@ == lowercase(s@),
        s@.len() == 0 ==> r@.len() == 0,
{
    s.to_lowercase()
}

/// Trusted: `str::starts_with` with a string pattern. True exactly when
/// the pattern is an initial segment of the text.
#[verifier::external_body]
pub(crate) fn starts_with(s: &str, pattern: &str) -> (r: bool)
    ensures
        r == is_prefix_of(pattern@, s@),
{
    s.starts_with(pattern)
}

/// Trusted: `str::ends_with` with a string pattern. True exactly when
/// the pattern is a final segment of the text.
#[verifier::external_body]
pub(crate) fn ends_with(s: &str, pattern: &str) -> (r: bool)
    ensures
        r == is_suffix_of(pattern@, s@),
{
    s.ends_with(pattern)
}

/// Trusted: `str::contains` with a string pattern. True exactly when
/// the pattern occurs in the text as a contiguous run.
#[verifier::external_body]
pub(crate) fn contains(s: &str, pattern: &str) -> (r: bool)
    ensures
        r == contains_seq(s@, pattern@),
{
    s.contains(pattern)
}

} // verus!
