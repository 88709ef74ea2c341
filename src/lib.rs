//! Assembly of a two-round trivia board plus a final bonus clue from
//! category and clue records supplied by an upstream clue service.

pub mod value;
pub mod random;
pub mod clue;
pub mod shuffle;
pub mod board;
pub mod generator;
pub mod game;
