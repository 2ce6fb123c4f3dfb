//! Two tiny standalone helpers: a borrowed length and a successor.

use vstd::prelude::*;

verus! {

/// The length of a string, in characters, through a borrow.
pub fn calculate_length(s: &String) -> (r: usize)
    ensures
        r == s@.len(),
{
    s.as_str().unicode_len()
}

/// The successor of `x`.
pub fn plus_one(x: i32) -> (r: i32)
    requires
        x < i32::MAX,
    ensures
        r == x + 1,
{
    x + 1
}

} // verus!
