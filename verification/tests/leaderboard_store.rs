//! The leaderboard store: ranking, bounds, and the persisted format.

use guessing_game::difficulty::Difficulty;
use guessing_game::leaderboard::LeaderboardStore;
use guessing_game::round::GuessOutcome;
use guessing_game::round::Round;

fn board_pairs(s: &LeaderboardStore, d: Difficulty) -> Vec<(String, u32)> {
    s.board(d).iter().map(|e| (e.name.clone(), e.attempts)).collect()
}

fn pairs(raw: &[(&str, u32)]) -> Vec<(String, u32)> {
    raw.iter().map(|(n, a)| (n.to_string(), *a)).collect()
}

#[test]
fn record_keeps_boards_sorted_and_bounded() {
    let mut s = LeaderboardStore::new(3);
    for attempts in [9, 2, 7, 4, 11, 1, 4] {
        s.record(Difficulty::Hard, "p".to_string(), attempts);
        let board = s.board(Difficulty::Hard);
        assert!(board.len() <= 3);
        for w in board.windows(2) {
            assert!(w[0].attempts <= w[1].attempts);
        }
    }
    let got: Vec<u32> = s.board(Difficulty::Hard).iter().map(|e| e.attempts).collect();
    assert_eq!(got, vec![1, 2, 4]);
}

#[test]
fn fourth_better_score_pushes_last_out() {
    let mut s = LeaderboardStore::new(3);
    assert!(s.record(Difficulty::Easy, "A".to_string(), 5));
    assert!(s.record(Difficulty::Easy, "B".to_string(), 7));
    assert!(s.record(Difficulty::Easy, "C".to_string(), 9));
    assert!(s.record(Difficulty::Easy, "D".to_string(), 6));
    assert_eq!(board_pairs(&s, Difficulty::Easy), pairs(&[("A", 5), ("D", 6), ("B", 7)]));
}

#[test]
fn ties_keep_insertion_order() {
    let mut s = LeaderboardStore::new(5);
    s.record(Difficulty::Easy, "first".to_string(), 4);
    s.record(Difficulty::Easy, "second".to_string(), 4);
    s.record(Difficulty::Easy, "third".to_string(), 4);
    assert_eq!(
        board_pairs(&s, Difficulty::Easy),
        pairs(&[("first", 4), ("second", 4), ("third", 4)])
    );
}

#[test]
fn full_board_tie_with_last_does_not_change_it() {
    let mut s = LeaderboardStore::new(3);
    s.record(Difficulty::Easy, "A".to_string(), 5);
    s.record(Difficulty::Easy, "B".to_string(), 7);
    s.record(Difficulty::Easy, "C".to_string(), 9);
    assert!(s.qualifies(Difficulty::Easy, 9));
    assert!(!s.record(Difficulty::Easy, "D".to_string(), 9));
    assert_eq!(board_pairs(&s, Difficulty::Easy), pairs(&[("A", 5), ("B", 7), ("C", 9)]));
    assert!(!s.qualifies(Difficulty::Easy, 10));
    assert!(!s.record(Difficulty::Easy, "E".to_string(), 10));
}

#[test]
fn qualifies_while_room_is_left() {
    let mut s = LeaderboardStore::new(2);
    assert!(s.qualifies(Difficulty::Medium, 1000));
    s.record(Difficulty::Medium, "A".to_string(), 30);
    assert!(s.qualifies(Difficulty::Medium, 1000));
    s.record(Difficulty::Medium, "B".to_string(), 40);
    assert!(!s.qualifies(Difficulty::Medium, 41));
    assert!(s.qualifies(Difficulty::Medium, 40));
}

#[test]
fn malformed_lines_are_skipped() {
    let text = "Easy|X\nEasy|bob|3\nnonsense\nMystery|amy|2\nHard|kim|x7\n\n  \nMedium|eve|0042\n";
    let s = LeaderboardStore::load(text, 5);
    assert_eq!(board_pairs(&s, Difficulty::Easy), pairs(&[("bob", 3)]));
    assert_eq!(board_pairs(&s, Difficulty::Medium), pairs(&[("eve", 42)]));
    assert!(s.board(Difficulty::Hard).is_empty());
    assert!(s.board(Difficulty::Insane).is_empty());
}

#[test]
fn load_sorts_and_truncates_each_tier() {
    let text = "Hard|c|9\nEasy|a|5\nHard|a|1\nHard|b|4\nHard|d|4\nEasy|b|2\n";
    let s = LeaderboardStore::load(text, 3);
    assert_eq!(board_pairs(&s, Difficulty::Easy), pairs(&[("b", 2), ("a", 5)]));
    assert_eq!(board_pairs(&s, Difficulty::Hard), pairs(&[("a", 1), ("b", 4), ("d", 4)]));
}

#[test]
fn lines_are_trimmed_before_parsing() {
    let text = "  Easy|spaced name|8  \r\nMedium|tab|9\t\n";
    let s = LeaderboardStore::load(text, 5);
    assert_eq!(board_pairs(&s, Difficulty::Easy), pairs(&[("spaced name", 8)]));
    assert_eq!(board_pairs(&s, Difficulty::Medium), pairs(&[("tab", 9)]));
}

#[test]
fn missing_file_reads_as_empty_store() {
    let s = LeaderboardStore::load("", 5);
    for d in [Difficulty::Easy, Difficulty::Medium, Difficulty::Hard, Difficulty::Insane] {
        assert!(s.board(d).is_empty());
    }
}

#[test]
fn save_writes_one_line_per_entry() {
    let mut s = LeaderboardStore::new(3);
    s.record(Difficulty::Easy, "bob".to_string(), 3);
    s.record(Difficulty::Easy, "amy".to_string(), 2);
    s.record(Difficulty::Insane, "kim".to_string(), 17);
    assert_eq!(s.save(), "Easy|amy|2\nEasy|bob|3\nInsane|kim|17\n");
}

#[test]
fn save_and_reload_round_trip() {
    let text = "Hard|c|9\nEasy|a|5\nHard|a|1\nEasy|spaced name|2\nHard|b|4\nInsane|z|100\n";
    let first = LeaderboardStore::load(text, 3);
    let saved = first.save();
    let second = LeaderboardStore::load(&saved, 3);
    for d in [Difficulty::Easy, Difficulty::Medium, Difficulty::Hard, Difficulty::Insane] {
        assert_eq!(board_pairs(&first, d), board_pairs(&second, d));
    }
    assert_eq!(saved, second.save());
}

#[test]
fn capacity_zero_records_nothing() {
    let mut s = LeaderboardStore::new(0);
    assert!(!s.qualifies(Difficulty::Easy, 1));
    assert!(!s.record(Difficulty::Easy, "A".to_string(), 1));
    assert!(s.board(Difficulty::Easy).is_empty());
}

#[test]
fn full_session_through_the_library() {
    let mut store = LeaderboardStore::load("Easy|ann|2\nEasy|ben|6\n", 3);
    let mut round = Round::with_secret(Difficulty::Easy, 33);
    let mut outcome = round.submit_text("50");
    for text in ["40", "30", "33"] {
        assert!(!matches!(outcome, Ok(GuessOutcome::Won)));
        outcome = round.submit_text(text);
    }
    assert_eq!(outcome, Ok(GuessOutcome::Won));
    assert_eq!(round.attempts(), 4);

    assert!(store.qualifies(Difficulty::Easy, round.attempts()));
    assert!(store.record(Difficulty::Easy, "cal".to_string(), round.attempts()));
    assert_eq!(board_pairs(&store, Difficulty::Easy), pairs(&[("ann", 2), ("cal", 4), ("ben", 6)]));

    let reloaded = LeaderboardStore::load(&store.save(), 3);
    assert_eq!(board_pairs(&reloaded, Difficulty::Easy), board_pairs(&store, Difficulty::Easy));
}
