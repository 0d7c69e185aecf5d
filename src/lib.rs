//! Core logic of a word-guessing chain-letter game: shuffle-bag sampling,
//! letter assembly, the timed reveal of a letter, the pool of guessable words,
//! scoring and the round state machine.

pub mod random;
pub mod bag;
pub mod text;
pub mod content;
pub mod timeline;
pub mod partial;
pub mod score;
pub mod pool;
pub mod matching;
pub mod round;
pub mod input;
pub mod session;
