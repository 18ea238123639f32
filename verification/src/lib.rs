//! Syllable estimation for English words.
//!
//! A counting engine normalizes raw input (trimming ASCII punctuation from
//! the ends, lowercasing, and validating), consults a curated dictionary of
//! known words, then a memoization cache, and finally falls back to a
//! vowel-cluster heuristic.  Invalid input is reported through the sentinel
//! value `0`; every valid word counts as at least one syllable.

pub mod counter;
pub mod heuristic;
pub mod laws;
pub mod lookup;
pub mod text;

pub use counter::Counter;
