use vstd::prelude::*;

verus! {

/// Represents domain-level scores.
#[derive(Debug, Clone, Copy, PartialEq, Eq, Structural, PartialOrd, Ord, Default)]
pub struct Score(pub u32);

/// Represents the level progression.
#[derive(Debug, Clone, Copy, PartialEq, Eq, Structural, PartialOrd, Ord, Default)]
pub struct Level(pub u8);

/// Represents remaining lives of the player.
#[derive(Debug, Clone, Copy, PartialEq, Eq, Structural, PartialOrd, Ord)]
pub struct Lives(pub u8);

/// A discrete 2D coordinate on the terminal grid.
#[derive(Debug, Clone, Copy, PartialEq, Eq, Structural)]
pub struct Vec2 {
    /// X coordinate (column).
    pub x: i32,
    /// Y coordinate (row).
    pub y: i32,
}

impl Vec2 {
    /// Constructs a new coordinate.
    pub fn new(x: i32, y: i32) -> (r: Self)
        ensures
            r.x == x,
            r.y == y,
    {
        Self { x, y }
    }
}

/// Screen bounds for rendering and game limits.
#[derive(Debug, Clone, Copy, PartialEq, Eq, Structural)]
pub struct TerminalSize {
    /// Number of wide text cells.
    pub width: u16,
    /// Number of tall text cells.
    pub height: u16,
}

/// Four-way directions for movement logic.
#[derive(Debug, Clone, Copy, PartialEq, Eq, Structural)]
pub enum Direction {
    /// Points up the screen (decreasing Y).
    Up,
    /// Points down the screen (increasing Y).
    Down,
    /// Points left (decreasing X).
    Left,
    /// Points right (increasing X).
    Right,
}

} // verus!
