//! The round engine: secrets, validation, feedback, and history.

use guessing_game::difficulty::Difficulty;
use guessing_game::round::proximity_hint;
use guessing_game::round::victory_comment;
use guessing_game::round::Direction;
use guessing_game::round::GuessError;
use guessing_game::round::GuessOutcome;
use guessing_game::round::ProximityHint;
use guessing_game::round::Round;
use guessing_game::round::Temperature;

fn wrong(direction: Direction, temperature: Temperature) -> Result<GuessOutcome, GuessError> {
    Ok(GuessOutcome::Continue { direction, temperature })
}

#[test]
fn secret_always_in_range() {
    for d in [Difficulty::Easy, Difficulty::Medium, Difficulty::Hard, Difficulty::Insane] {
        let (lo, hi) = d.range();
        for _ in 0..50 {
            let r = Round::new(d);
            assert!(lo <= r.secret() && r.secret() <= hi);
            assert_eq!(r.difficulty(), d);
            assert_eq!(r.attempts(), 0);
        }
    }
}

#[test]
fn fixed_secret_scenario() {
    let mut r = Round::with_secret(Difficulty::Easy, 42);
    assert_eq!(r.submit_guess(10), wrong(Direction::Lower, Temperature::Same));
    assert_eq!(r.previous_distance(), Some(32));
    assert_eq!(r.submit_guess(70), wrong(Direction::Higher, Temperature::Warmer));
    assert_eq!(r.previous_distance(), Some(28));
    assert_eq!(r.submit_guess(42), Ok(GuessOutcome::Won));
    assert_eq!(r.attempts(), 3);
    assert_eq!(r.guesses().as_slice(), &[10, 70, 42]);
}

#[test]
fn colder_and_circling_feedback() {
    let mut r = Round::with_secret(Difficulty::Easy, 50);
    assert_eq!(r.submit_guess(40), wrong(Direction::Lower, Temperature::Same));
    assert_eq!(r.submit_guess(30), wrong(Direction::Lower, Temperature::Colder));
    assert_eq!(r.submit_guess(70), wrong(Direction::Higher, Temperature::Same));
    assert_eq!(r.submit_guess(55), wrong(Direction::Higher, Temperature::Warmer));
}

#[test]
fn range_boundaries() {
    let mut r = Round::with_secret(Difficulty::Easy, 42);
    assert_eq!(r.submit_guess(0), Err(GuessError::OutOfRange));
    assert_eq!(r.submit_guess(101), Err(GuessError::OutOfRange));
    assert_eq!(r.attempts(), 0);
    assert_eq!(r.submit_guess(1), wrong(Direction::Lower, Temperature::Same));
    assert_eq!(r.submit_guess(100), wrong(Direction::Higher, Temperature::Colder));
    assert_eq!(r.attempts(), 2);
}

#[test]
fn rejected_guesses_do_not_count() {
    let mut r = Round::with_secret(Difficulty::Medium, 250);
    assert_eq!(r.submit_text("not a number"), Err(GuessError::InvalidFormat));
    assert_eq!(r.submit_text(""), Err(GuessError::InvalidFormat));
    assert_eq!(r.submit_text("-3"), Err(GuessError::InvalidFormat));
    assert_eq!(r.submit_text("99999999999"), Err(GuessError::InvalidFormat));
    assert_eq!(r.submit_text("501"), Err(GuessError::OutOfRange));
    assert_eq!(r.attempts(), 0);
    assert!(r.guesses().is_empty());
}

#[test]
fn text_guesses_are_trimmed_and_parsed() {
    let mut r = Round::with_secret(Difficulty::Easy, 42);
    assert_eq!(r.submit_text(" 10 \n"), wrong(Direction::Lower, Temperature::Same));
    assert_eq!(r.submit_text("+70"), wrong(Direction::Higher, Temperature::Warmer));
    assert_eq!(r.submit_text("042"), Ok(GuessOutcome::Won));
    assert_eq!(r.guesses().as_slice(), &[10, 70, 42]);
}

#[test]
fn attempts_track_history_length() {
    let mut r = Round::with_secret(Difficulty::Hard, 900);
    let guesses = [1, 2, 3, 4, 5, 6, 7];
    for g in guesses {
        let _ = r.submit_guess(g);
        assert_eq!(r.attempts() as usize, r.guesses().len());
    }
    assert_eq!(r.attempts(), 7);
    assert_eq!(r.guesses().as_slice(), &guesses);
}

#[test]
fn proximity_hints_on_hardest_tier_only() {
    assert_eq!(proximity_hint(Difficulty::Insane, 5, 100), Some(ProximityHint::WithinHundred));
    assert_eq!(proximity_hint(Difficulty::Insane, 5, 101), Some(ProximityHint::WithinFiveHundred));
    assert_eq!(proximity_hint(Difficulty::Insane, 5, 500), Some(ProximityHint::WithinFiveHundred));
    assert_eq!(proximity_hint(Difficulty::Insane, 5, 501), None);
    assert_eq!(proximity_hint(Difficulty::Insane, 4, 10), None);
    assert_eq!(proximity_hint(Difficulty::Easy, 9, 10), None);
}

#[test]
fn victory_comment_grades() {
    assert_eq!(victory_comment(1), "💯 PERFECT! First try! Are you psychic?!");
    assert_eq!(victory_comment(3), "🔥 INCREDIBLE! You're a natural!");
    assert_eq!(victory_comment(5), "👏 Well done! Solid performance!");
    assert_eq!(victory_comment(10), "👍 Not bad! Room for improvement!");
    assert_eq!(victory_comment(11), "😅 Finally! That was... a journey!");
}
