//! Game rules of a terminal arcade: the state, input handling, movement,
//! collision and scoring of its grid games, with their contracts.

pub mod engine;
pub mod games;
pub mod menu;
pub mod persistence;
pub mod types;
