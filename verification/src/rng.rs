//! Trusted access to the `rand` crate: the two uniform draws the game
//! makes, behind contracts that promise only membership in the sampled
//! range.

use vstd::prelude::*;

verus! {

/// Relies on `rand::Rng::gen_range` over `lo..=hi` with the thread-local
/// generator: it panics only when the range is empty and otherwise
/// returns a value of the range. Nothing is assumed about which value.
#[verifier::external_body]
pub(crate) fn random_in_range(lo: u32, hi: u32) -> (r: u32)
    requires
        lo <= hi,
    ensures
        lo <= r <= hi,
{
    rand::Rng::gen_range(&mut rand::thread_rng(), lo..=hi)
}

/// Relies on `rand::Rng::gen_range` over `0..len` with the thread-local
/// generator: it panics only when the range is empty and otherwise
/// returns an index below `len`. Nothing is assumed about which index.
#[verifier::external_body]
pub(crate) fn random_index(len: usize) -> (r: usize)
    requires
        len > 0,
    ensures
        r < len,
{
    rand::Rng::gen_range(&mut rand::thread_rng(), 0..len)
}

} // verus!
