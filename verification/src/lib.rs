//! A guess-the-number game library: a round engine with warmer/colder
//! feedback, persistent per-difficulty leaderboards in a pipe-delimited
//! text format, roast-line tables with a profanity filter, and a few
//! small standalone helpers for structs, slices and words.

pub mod basics;
pub mod casefold;
pub mod difficulty;
pub mod leaderboard;
pub mod prompts;
pub mod rect;
mod rng;
pub mod roaster;
pub mod round;
pub mod text;
pub mod tuples;
pub mod user;
pub mod words;
