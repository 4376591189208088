//! Evolutionary search for a fixed alphanumeric target string.

pub mod candidate;
pub mod guesser;
pub mod random;
