//! Case folding and substring search, relied on from the standard
//! library: the profanity filter lowercases each roast line and looks
//! for banned words in it.

use vstd::prelude::*;

verus! {

/// The lowercase form that `str::to_lowercase` produces for a given
/// character sequence; it depends on the characters alone.
pub uninterp spec fn lower_of(s: Seq<char>) -> Seq<char>;

/// Whether `w` occurs as a contiguous run inside `s`.
pub open spec fn contains_spec(s: Seq<char>, w: Seq<char>) -> bool {
    exists|i: int| 0 <= i && i + w.len() <= s.len() && #[trigger] s.subrange(i, i + w.len()) == w
}

/// Relies on `str::to_lowercase`: the result is the Unicode lowercase
/// equivalent of `s`, a function of its characters alone.
#[verifier::external_body]
pub(crate) fn to_lowercase(s: &str) -> (r: String)
    ensures
        r@ == lower_of(s@),
{
    s.to_lowercase()
}

/// Relies on `str::contains` with a `&str` pattern: it returns whether
/// the pattern matches a contiguous sub-slice of `s`.
#[verifier::external_body]
pub(crate) fn str_contains(s: &str, w: &str) -> (r: bool)
    ensures
        r == contains_spec(s@, w@),
{
    s.contains(w)
}

} // verus!
