pub mod logic;
pub mod state;
pub mod game;
