pub mod game;
pub mod logic;
pub mod state;
