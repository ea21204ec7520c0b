//! Session engine of a timed trivia game: per-player game state, the store
//! that maps session tokens to it, and the rules that drive a round.
pub mod account;
pub mod display;
pub mod forms;
pub mod game;
pub mod models;
pub mod session;
pub mod stopwatch;
pub mod text;
