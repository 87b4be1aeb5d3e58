pub mod rand;
pub mod runner;
pub mod snake;
pub mod tetris;
pub mod invaders;
pub mod minesweeper;
pub mod dino;
pub mod bricks;
pub mod flappy;
pub mod pong;
