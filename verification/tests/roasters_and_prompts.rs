//! Roasters, the profanity filter, menu choices and prompt answers.

use guessing_game::difficulty::Difficulty;
use guessing_game::prompts::parse_yes_no;
use guessing_game::prompts::resolve_player_name;
use guessing_game::roaster::filter_jibes;
use guessing_game::roaster::is_clean;
use guessing_game::roaster::load_jibes;
use guessing_game::roaster::pick_jibe;
use guessing_game::roaster::Roaster;

#[test]
fn every_roaster_has_jibes() {
    for r in Roaster::all() {
        let (low, high, win) = load_jibes(r);
        assert!(!low.is_empty());
        assert!(!high.is_empty());
        assert!(!win.is_empty());
        assert!(!r.name().is_empty());
        assert!(!r.description().is_empty());
    }
}

#[test]
fn filter_drops_profane_lines_case_insensitively() {
    let jibes = vec![
        "FUCK off".to_string(),
        "nice one".to_string(),
        "what the Shit".to_string(),
        "keep going".to_string(),
    ];
    let cleaned = filter_jibes(jibes, "Too low!");
    assert_eq!(cleaned, vec!["nice one".to_string(), "keep going".to_string()]);
}

#[test]
fn filter_falls_back_when_everything_is_dropped() {
    let jibes = vec!["you bastard".to_string(), "piss off".to_string()];
    let cleaned = filter_jibes(jibes, "Too high!");
    assert_eq!(cleaned, vec!["Too high!".to_string()]);
}

#[test]
fn is_clean_spots_embedded_words() {
    assert!(!is_clean("total shithead"));
    assert!(!is_clean("DICKENS")); // embedded, as substring matching goes
    assert!(is_clean("Too small! You absolute donkey!"));
    assert!(is_clean(""));
}

#[test]
fn ramsay_filtered_tables_lose_lines() {
    let (low, high, _) = load_jibes(Roaster::Ramsay);
    let low_len = low.len();
    let high_len = high.len();
    let low_clean = filter_jibes(low, "Too low!");
    let high_clean = filter_jibes(high, "Too high!");
    assert!(low_clean.len() < low_len);
    assert!(high_clean.len() < high_len);
    for j in low_clean.iter().chain(high_clean.iter()) {
        assert!(is_clean(j));
    }
}

#[test]
fn pick_jibe_returns_a_member() {
    let (low, _, _) = load_jibes(Roaster::NormMacdonald);
    for _ in 0..20 {
        let j = pick_jibe(&low);
        assert!(low.contains(j));
    }
}

#[test]
fn roaster_menu_choices() {
    assert_eq!(Roaster::from_choice("1"), Some(Roaster::Ramsay));
    assert_eq!(Roaster::from_choice("7"), Some(Roaster::AnthonyJeselnik));
    assert_eq!(Roaster::from_choice("16"), Some(Roaster::JeffRoss));
    assert_eq!(Roaster::from_choice("0"), None);
    assert_eq!(Roaster::from_choice("17"), None);
    assert_eq!(Roaster::from_choice(""), None);
    assert_eq!(Roaster::all().len(), 16);
}

#[test]
fn difficulty_menu_and_names() {
    assert_eq!(Difficulty::from_choice("1"), Some(Difficulty::Easy));
    assert_eq!(Difficulty::from_choice("4"), Some(Difficulty::Insane));
    assert_eq!(Difficulty::from_choice("5"), None);
    assert_eq!(Difficulty::from_name("Medium"), Some(Difficulty::Medium));
    assert_eq!(Difficulty::from_name("medium"), None);
    assert_eq!(Difficulty::Hard.name(), "Hard");
    assert_eq!(Difficulty::Insane.range(), (1, 10000));
    assert_eq!(Difficulty::Easy.emoji(), "😊");
}

#[test]
fn yes_no_answers() {
    assert_eq!(parse_yes_no("y"), Some(true));
    assert_eq!(parse_yes_no(" YES "), Some(true));
    assert_eq!(parse_yes_no("n"), Some(false));
    assert_eq!(parse_yes_no("No"), Some(false));
    assert_eq!(parse_yes_no("maybe"), None);
    assert_eq!(parse_yes_no(""), None);
}

#[test]
fn player_names_default_to_anonymous() {
    assert_eq!(resolve_player_name("  kim  "), "kim");
    assert_eq!(resolve_player_name(""), "Anonymous");
    assert_eq!(resolve_player_name(" \t "), "Anonymous");
}
