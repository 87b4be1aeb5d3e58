pub mod logic;
pub mod state;
