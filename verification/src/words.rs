//! First-word helpers over strings: the index form and the slice form.

use vstd::prelude::*;
use crate::text::char_index_of;
use crate::text::lemma_char_index_of;

verus! {

/// The character index where the first word ends: the first space, or
/// the end of the string when it holds a single word.
pub fn first_word_index(s: &String) -> (r: usize)
    ensures
        r == char_index_of(s@, ' '),
{
    first_word_end(s.as_str())
}

/// The first word of `s`: everything before the first space, or all of
/// `s` when it holds a single word.
pub fn first_word_slice(s: &str) -> (r: &str)
    ensures
        r@ == s@.subrange(0, char_index_of(s@, ' ') as int),
{
    let end = first_word_end(s);
    proof {
        lemma_char_index_of(s@, ' ');
    }
    s.substring_char(0, end)
}

/// The first word of `s`; accepting `&str` works for both `String`
/// values and string literals.
pub fn first_word(s: &str) -> (r: &str)
    ensures
        r@ == s@.subrange(0, char_index_of(s@, ' ') as int),
{
    first_word_slice(s)
}

/// Scan for the first space of `s`.
fn first_word_end(s: &str) -> (r: usize)
    ensures
        r == char_index_of(s@, ' '),
{
    let len = s.unicode_len();
    let mut i: usize = 0;
    while i < len && s.get_char(i) != ' '
        invariant
            len == s@.len(),
            i <= len,
            forall|j: int| 0 <= j < i ==> s@[j] != ' ',
        decreases len - i,
    {
        i = i + 1;
    }
    proof {
        lemma_char_index_of(s@, ' ');
        let p = char_index_of(s@, ' ');
        if p < i {
            assert(s@[p as int] == ' ');
        }
        if i < p {
            assert(s@[i as int] != ' ');
        }
    }
    i
}

} // verus!
