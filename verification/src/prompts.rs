//! What the game makes of the player's typed answers: yes/no questions
//! and the name asked for when a score makes the leaderboard.

use vstd::prelude::*;
use crate::casefold::lower_of;
use crate::casefold::to_lowercase;
use crate::text::str_eq;
use crate::text::trim;
use crate::text::trim_spec;

verus! {

/// How a yes/no answer reads: trimmed and lowercased, `y` and `yes`
/// mean yes, `n` and `no` mean no, anything else asks again.
pub open spec fn yes_no_spec(s: Seq<char>) -> Option<bool> {
    let l = lower_of(trim_spec(s));
    if l == "y"@ || l == "yes"@ {
        Some(true)
    } else if l == "n"@ || l == "no"@ {
        Some(false)
    } else {
        None
    }
}

/// Read a yes/no answer; `None` means the prompt must be repeated.
pub fn parse_yes_no(s: &str) -> (r: Option<bool>)
    ensures
        r == yes_no_spec(s@),
{
    let low = to_lowercase(trim(s));
    if str_eq(low.as_str(), "y") || str_eq(low.as_str(), "yes") {
        Some(true)
    } else if str_eq(low.as_str(), "n") || str_eq(low.as_str(), "no") {
        Some(false)
    } else {
        None
    }
}

/// The name that goes on the leaderboard: the trimmed input, or
/// `Anonymous` when nothing is left of it.
pub open spec fn resolved_name_spec(s: Seq<char>) -> Seq<char> {
    if trim_spec(s).len() == 0 {
        "Anonymous"@
    } else {
        trim_spec(s)
    }
}

/// Resolve the typed player name for recording.
pub fn resolve_player_name(s: &str) -> (r: String)
    ensures
        r@ == resolved_name_spec(s@),
{
    let t = trim(s);
    if t.is_empty() {
        String::from_str("Anonymous")
    } else {
        String::from_str(t)
    }
}

} // verus!
