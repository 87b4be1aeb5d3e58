pub mod game;
pub mod geometry;
pub mod error;
