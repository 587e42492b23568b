//! A coin-flip guessing game: each round a hidden suspect flips a coin that is
//! either fair or biased towards heads, and a strategy spends a budget of
//! flips before it guesses which kind of suspect it faces.
//!
//! Probabilities are held as integers in millionths (`PROBABILITY_SCALE`).
pub mod suspect;
pub mod state;
pub mod engine;
pub mod command;
pub mod strategies;
