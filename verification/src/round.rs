//! The round engine: one play-through from drawing a secret to a correct
//! guess. Guesses are validated, counted, recorded, and answered with
//! directional (lower/higher) and temperature (warmer/colder) feedback.

use vstd::prelude::*;
use crate::difficulty::Difficulty;
use crate::rng::random_in_range;
use crate::text::{parse_u32, parse_u32_spec, trim, trim_spec};

verus! {

/// Which side of the secret a wrong guess fell on: `Lower` means the
/// guess was below the secret.
#[derive(Clone, Copy, PartialEq, Eq, Structural, Debug)]
pub enum Direction {
    Lower,
    Higher,
}

/// How the latest distance to the secret compares with the previous one.
/// The first wrong guess of a round has nothing to compare with and
/// reads as `Same`.
#[derive(Clone, Copy, PartialEq, Eq, Structural, Debug)]
pub enum Temperature {
    Warmer,
    Colder,
    Same,
}

/// Why a guess was rejected; rejected guesses are not counted.
#[derive(Clone, Copy, PartialEq, Eq, Structural, Debug)]
pub enum GuessError {
    /// The text did not read as a non-negative integer.
    InvalidFormat,
    /// The number lies outside the difficulty's range.
    OutOfRange,
}

/// The answer to a counted guess.
#[derive(Clone, Copy, PartialEq, Eq, Structural, Debug)]
pub enum GuessOutcome {
    /// The guess hit the secret: the round is over.
    Won,
    /// A wrong guess: the round continues with this advisory feedback.
    Continue { direction: Direction, temperature: Temperature },
}

/// The absolute distance between a guess and the secret.
pub open spec fn distance_spec(guess: u32, secret: u32) -> int {
    if guess >= secret {
        guess - secret
    } else {
        secret - guess
    }
}

/// The directional feedback for a wrong guess.
pub open spec fn direction_spec(guess: u32, secret: u32) -> Direction {
    if guess < secret {
        Direction::Lower
    } else {
        Direction::Higher
    }
}

/// The temperature feedback: strictly closer than last time is warmer,
/// strictly farther is colder, and everything else reads as `Same`.
pub open spec fn temperature_spec(distance: int, previous: Option<u32>) -> Temperature {
    match previous {
        Option::None => Temperature::Same,
        Option::Some(p) => if distance < p {
            Temperature::Warmer
        } else if distance > p {
            Temperature::Colder
        } else {
            Temperature::Same
        },
    }
}

/// One guessing round: its secret, and the history of counted guesses.
pub struct Round {
    pub difficulty: Difficulty,
    pub secret: u32,
    pub attempts: u32,
    pub guesses: Vec<u32>,
    pub previous_distance: Option<u32>,
}

/// How one candidate guess moves a round from `pre` to `post` with
/// result `r`: out-of-range guesses are rejected and change nothing;
/// counted guesses extend the history and either win the round or yield
/// directional and temperature feedback.
pub open spec fn guess_step(
    pre: Round,
    guess: u32,
    post: Round,
    r: Result<GuessOutcome, GuessError>,
) -> bool {
    &&& post.difficulty == pre.difficulty
    &&& post.secret == pre.secret
    &&& if !pre.difficulty.contains_spec(guess) {
        &&& r == Err::<GuessOutcome, GuessError>(GuessError::OutOfRange)
        &&& post == pre
    } else {
        &&& post.attempts == pre.attempts + 1
        &&& post.guesses@ == pre.guesses@.push(guess)
        &&& if guess == pre.secret {
            &&& r == Ok::<GuessOutcome, GuessError>(GuessOutcome::Won)
            &&& post.previous_distance == pre.previous_distance
        } else {
            &&& r == Ok::<GuessOutcome, GuessError>(
                GuessOutcome::Continue {
                    direction: direction_spec(guess, pre.secret),
                    temperature: temperature_spec(
                        distance_spec(guess, pre.secret),
                        pre.previous_distance,
                    ),
                },
            )
            &&& post.previous_distance == Some(distance_spec(guess, pre.secret) as u32)
        }
    }
}

impl Round {
    /// Well-formedness: the secret lies in the difficulty's range, and
    /// the attempt counter always equals the number of recorded guesses.
    pub open spec fn wf(self) -> bool {
        &&& self.difficulty.lower_spec() <= self.secret <= self.difficulty.upper_spec()
        &&& self.attempts == self.guesses@.len()
        &&& (self.previous_distance is Some ==> self.attempts > 0)
    }

    /// Start a round on `difficulty` with a freshly drawn secret, which
    /// always lies within the tier's inclusive range.
    pub fn new(difficulty: Difficulty) -> (r: Round)
        ensures
            r.wf(),
            r.difficulty == difficulty,
            difficulty.lower_spec() <= r.secret <= difficulty.upper_spec(),
            r.attempts == 0,
            r.guesses@ == Seq::<u32>::empty(),
            r.previous_distance is None,
    {
        let (lo, hi) = difficulty.range();
        let secret = random_in_range(lo, hi);
        Round {
            difficulty,
            secret,
            attempts: 0,
            guesses: Vec::new(),
            previous_distance: None,
        }
    }

    /// Start a round with a chosen secret, for deterministic play.
    pub fn with_secret(difficulty: Difficulty, secret: u32) -> (r: Round)
        requires
            difficulty.lower_spec() <= secret <= difficulty.upper_spec(),
        ensures
            r.wf(),
            r.difficulty == difficulty,
            r.secret == secret,
            r.attempts == 0,
            r.guesses@ == Seq::<u32>::empty(),
            r.previous_distance is None,
    {
        Round {
            difficulty,
            secret,
            attempts: 0,
            guesses: Vec::new(),
            previous_distance: None,
        }
    }

    /// Feed one already-parsed candidate guess to the round.
    pub fn submit_guess(&mut self, guess: u32) -> (r: Result<GuessOutcome, GuessError>)
        requires
            old(self).wf(),
            old(self).attempts < u32::MAX,
        ensures
            final(self).wf(),
            guess_step(*old(self), guess, *final(self), r),
    {
        let (lo, hi) = self.difficulty.range();
        if guess < lo || guess > hi {
            return Err(GuessError::OutOfRange);
        }
        self.attempts = self.attempts + 1;
        self.guesses.push(guess);
        if guess == self.secret {
            return Ok(GuessOutcome::Won);
        }
        let dist: u32 = if guess >= self.secret {
            guess - self.secret
        } else {
            self.secret - guess
        };
        let direction = if guess < self.secret {
            Direction::Lower
        } else {
            Direction::Higher
        };
        let temperature = match self.previous_distance {
            None => Temperature::Same,
            Some(p) => if dist < p {
                Temperature::Warmer
            } else if dist > p {
                Temperature::Colder
            } else {
                Temperature::Same
            },
        };
        self.previous_distance = Some(dist);
        Ok(GuessOutcome::Continue { direction, temperature })
    }

    /// Feed one raw guess line to the round: text that does not read as
    /// a non-negative integer is rejected as `InvalidFormat` and, like
    /// an out-of-range number, neither counts nor changes the round.
    pub fn submit_text(&mut self, input: &str) -> (r: Result<GuessOutcome, GuessError>)
        requires
            old(self).wf(),
            old(self).attempts < u32::MAX,
        ensures
            final(self).wf(),
            match parse_u32_spec(trim_spec(input@)) {
                Option::None => {
                    &&& r == Err::<GuessOutcome, GuessError>(GuessError::InvalidFormat)
                    &&& *final(self) == *old(self)
                },
                Option::Some(g) => guess_step(*old(self), g, *final(self), r),
            },
    {
        match parse_u32(trim(input)) {
            None => Err(GuessError::InvalidFormat),
            Some(g) => self.submit_guess(g),
        }
    }

    /// The tier this round is played on.
    pub fn difficulty(&self) -> (r: Difficulty)
        ensures
            r == self.difficulty,
    {
        self.difficulty
    }

    /// The number hidden from the player.
    pub fn secret(&self) -> (r: u32)
        ensures
            r == self.secret,
    {
        self.secret
    }

    /// How many guesses have been counted so far.
    pub fn attempts(&self) -> (r: u32)
        ensures
            r == self.attempts,
    {
        self.attempts
    }

    /// The counted guesses, in submission order.
    pub fn guesses(&self) -> (r: &Vec<u32>)
        ensures
            r@ == self.guesses@,
    {
        &self.guesses
    }

    /// The distance of the latest wrong guess, once there is one.
    pub fn previous_distance(&self) -> (r: Option<u32>)
        ensures
            r == self.previous_distance,
    {
        self.previous_distance
    }
}

/// In every well-formed round the attempt counter equals the length of
/// the guess history; `guess_step` shows that counted guesses are
/// appended in submission order, so after `N` valid guesses both read
/// `N`.
pub proof fn lemma_attempts_match_history(r: Round)
    requires
        r.wf(),
    ensures
        r.attempts == r.guesses@.len(),
{
}

/// The extra proximity hint shown on the hardest tier once the player
/// has spent several attempts.
#[derive(Clone, Copy, PartialEq, Eq, Structural, Debug)]
pub enum ProximityHint {
    WithinHundred,
    WithinFiveHundred,
}

/// When the hardest tier grants a proximity hint: from the fifth counted
/// attempt on, a distance within 100 or within 500 is pointed out.
pub open spec fn proximity_hint_spec(
    difficulty: Difficulty,
    attempts: u32,
    distance: u32,
) -> Option<ProximityHint> {
    if difficulty == Difficulty::Insane && attempts >= 5 {
        if distance <= 100 {
            Some(ProximityHint::WithinHundred)
        } else if distance <= 500 {
            Some(ProximityHint::WithinFiveHundred)
        } else {
            None
        }
    } else {
        None
    }
}

/// The proximity hint owed after a wrong guess, if any.
pub fn proximity_hint(difficulty: Difficulty, attempts: u32, distance: u32) -> (r: Option<
    ProximityHint,
>)
    ensures
        r == proximity_hint_spec(difficulty, attempts, distance),
{
    if difficulty == Difficulty::Insane && attempts >= 5 {
        if distance <= 100 {
            Some(ProximityHint::WithinHundred)
        } else if distance <= 500 {
            Some(ProximityHint::WithinFiveHundred)
        } else {
            None
        }
    } else {
        None
    }
}

/// The comment printed with the win banner, graded by attempt count.
pub open spec fn victory_comment_spec(attempts: u32) -> Seq<char> {
    if attempts == 1 {
        "💯 PERFECT! First try! Are you psychic?!"@
    } else if attempts <= 3 {
        "🔥 INCREDIBLE! You're a natural!"@
    } else if attempts <= 5 {
        "👏 Well done! Solid performance!"@
    } else if attempts <= 10 {
        "👍 Not bad! Room for improvement!"@
    } else {
        "😅 Finally! That was... a journey!"@
    }
}

/// Pick the win-banner comment for an attempt count.
pub fn victory_comment(attempts: u32) -> (r: &'static str)
    ensures
        r@ == victory_comment_spec(attempts),
{
    if attempts == 1 {
        "💯 PERFECT! First try! Are you psychic?!"
    } else if attempts <= 3 {
        "🔥 INCREDIBLE! You're a natural!"
    } else if attempts <= 5 {
        "👏 Well done! Solid performance!"
    } else if attempts <= 10 {
        "👍 Not bad! Room for improvement!"
    } else {
        "😅 Finally! That was... a journey!"
    }
}

} // verus!
