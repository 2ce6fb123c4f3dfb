//! The fixed difficulty tiers of the game, each mapping to an inclusive
//! guessing range, a display name used in the persisted leaderboard
//! format, and a decorative emoji.

use vstd::prelude::*;
use crate::text::str_eq;

verus! {

/// A difficulty tier, fixed at compile time.
#[derive(Clone, Copy, PartialEq, Eq, Structural, Debug)]
pub enum Difficulty {
    Easy,
    Medium,
    Hard,
    Insane,
}

impl Difficulty {
    /// Lower bound of the inclusive guessing range.
    pub open spec fn lower_spec(self) -> u32 {
        1
    }

    /// Upper bound of the inclusive guessing range.
    pub open spec fn upper_spec(self) -> u32 {
        match self {
            Difficulty::Easy => 100,
            Difficulty::Medium => 500,
            Difficulty::Hard => 1000,
            Difficulty::Insane => 10000,
        }
    }

    /// Whether `g` lies within the tier's inclusive range.
    pub open spec fn contains_spec(self, g: u32) -> bool {
        self.lower_spec() <= g <= self.upper_spec()
    }

    /// The inclusive range `[lower, upper]` a secret is drawn from.
    pub fn range(&self) -> (r: (u32, u32))
        ensures
            r.0 == self.lower_spec(),
            r.1 == self.upper_spec(),
            r.0 <= r.1,
    {
        match self {
            Difficulty::Easy => (1, 100),
            Difficulty::Medium => (1, 500),
            Difficulty::Hard => (1, 1000),
            Difficulty::Insane => (1, 10000),
        }
    }

    /// The name under which this tier appears in the leaderboard file.
    pub open spec fn name_spec(self) -> Seq<char> {
        match self {
            Difficulty::Easy => "Easy"@,
            Difficulty::Medium => "Medium"@,
            Difficulty::Hard => "Hard"@,
            Difficulty::Insane => "Insane"@,
        }
    }

    /// Display name, also used as the first field of a record line.
    pub fn name(&self) -> (r: &'static str)
        ensures
            r@ == self.name_spec(),
    {
        match self {
            Difficulty::Easy => "Easy",
            Difficulty::Medium => "Medium",
            Difficulty::Hard => "Hard",
            Difficulty::Insane => "Insane",
        }
    }

    /// The emoji shown next to the tier name.
    pub open spec fn emoji_spec(self) -> Seq<char> {
        match self {
            Difficulty::Easy => "😊"@,
            Difficulty::Medium => "😤"@,
            Difficulty::Hard => "💀"@,
            Difficulty::Insane => "👹"@,
        }
    }

    /// Decorative emoji for menus and banners.
    pub fn emoji(&self) -> (r: &'static str)
        ensures
            r@ == self.emoji_spec(),
    {
        match self {
            Difficulty::Easy => "😊",
            Difficulty::Medium => "😤",
            Difficulty::Hard => "💀",
            Difficulty::Insane => "👹",
        }
    }

    /// The tier a leaderboard record names, if any.
    pub open spec fn from_name_spec(s: Seq<char>) -> Option<Difficulty> {
        if s == "Easy"@ {
            Some(Difficulty::Easy)
        } else if s == "Medium"@ {
            Some(Difficulty::Medium)
        } else if s == "Hard"@ {
            Some(Difficulty::Hard)
        } else if s == "Insane"@ {
            Some(Difficulty::Insane)
        } else {
            None
        }
    }

    /// Recognise a tier by its file name; unknown names are rejected,
    /// which makes the leaderboard loader drop such records.
    pub fn from_name(s: &str) -> (r: Option<Difficulty>)
        ensures
            r == Self::from_name_spec(s@),
    {
        if str_eq(s, "Easy") {
            Some(Difficulty::Easy)
        } else if str_eq(s, "Medium") {
            Some(Difficulty::Medium)
        } else if str_eq(s, "Hard") {
            Some(Difficulty::Hard)
        } else if str_eq(s, "Insane") {
            Some(Difficulty::Insane)
        } else {
            None
        }
    }

    /// The tier a menu choice (`"1"` to `"4"`) selects, if any.
    pub open spec fn from_choice_spec(s: Seq<char>) -> Option<Difficulty> {
        if s == "1"@ {
            Some(Difficulty::Easy)
        } else if s == "2"@ {
            Some(Difficulty::Medium)
        } else if s == "3"@ {
            Some(Difficulty::Hard)
        } else if s == "4"@ {
            Some(Difficulty::Insane)
        } else {
            None
        }
    }

    /// Map a difficulty-menu answer to its tier.
    pub fn from_choice(s: &str) -> (r: Option<Difficulty>)
        ensures
            r == Self::from_choice_spec(s@),
    {
        if str_eq(s, "1") {
            Some(Difficulty::Easy)
        } else if str_eq(s, "2") {
            Some(Difficulty::Medium)
        } else if str_eq(s, "3") {
            Some(Difficulty::Hard)
        } else if str_eq(s, "4") {
            Some(Difficulty::Insane)
        } else {
            None
        }
    }

    /// Every tier, in menu order.
    pub fn all() -> (r: Vec<Difficulty>)
        ensures
            r@ == seq![
                Difficulty::Easy,
                Difficulty::Medium,
                Difficulty::Hard,
                Difficulty::Insane,
            ],
    {
        let mut r: Vec<Difficulty> = Vec::new();
        r.push(Difficulty::Easy);
        r.push(Difficulty::Medium);
        r.push(Difficulty::Hard);
        r.push(Difficulty::Insane);
        proof {
            assert(r@ =~= seq![
                Difficulty::Easy,
                Difficulty::Medium,
                Difficulty::Hard,
                Difficulty::Insane,
            ]);
        }
        r
    }
}

/// The four tier names denote four distinct tiers: reading back the name
/// of any tier identifies that tier and no other.
pub proof fn lemma_name_round_trip(d: Difficulty)
    ensures
        Difficulty::from_name_spec(d.name_spec()) == Some(d),
{
    reveal_strlit("Easy");
    reveal_strlit("Medium");
    reveal_strlit("Hard");
    reveal_strlit("Insane");
    assert("Easy"@.len() == 4);
    assert("Medium"@.len() == 6);
    assert("Hard"@.len() == 4);
    assert("Insane"@.len() == 6);
    assert("Easy"@[0] != "Hard"@[0]);
    assert("Medium"@[0] != "Insane"@[0]);
}

} // verus!
