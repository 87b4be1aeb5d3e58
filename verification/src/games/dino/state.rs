use vstd::prelude::*;

use crate::types::geometry::TerminalSize;

verus! {

/// The obstacles of the Dino game, from the small cactus to the high bird.
#[derive(Debug, Clone, Copy, PartialEq, Eq, Structural)]
pub enum DinoObstacleKind {
    SmallCactus,
    LargeCactus,
    CactusCluster,
    LowBird,
    HighBird,
}

/// What the dinosaur is doing.
#[derive(Debug, Clone, Copy, PartialEq, Eq, Structural)]
pub enum DinoStatus {
    Running,
    Jumping,
    Ducking,
    GameOver,
    Complete,
}

impl DinoStatus {
    /// True exactly for `GameOver`.
    pub fn is_game_over(self) -> (r: bool)
        ensures
            r <==> self is GameOver,
    {
        match self {
            DinoStatus::GameOver => true,
            _ => false,
        }
    }

    /// True exactly for `Complete`.
    pub fn is_complete(self) -> (r: bool)
        ensures
            r <==> self is Complete,
    {
        match self {
            DinoStatus::Complete => true,
            _ => false,
        }
    }

    /// True exactly for `Jumping`.
    pub fn is_jumping(self) -> (r: bool)
        ensures
            r <==> self is Jumping,
    {
        match self {
            DinoStatus::Jumping => true,
            _ => false,
        }
    }

    /// True exactly for `Ducking`.
    pub fn is_ducking(self) -> (r: bool)
        ensures
            r <==> self is Ducking,
    {
        match self {
            DinoStatus::Ducking => true,
            _ => false,
        }
    }
}

/// The row of the ground: three rows above the bottom of the terminal (0 on a
/// terminal of fewer than three rows).
pub fn ground_line(bounds: TerminalSize) -> (r: u16)
    ensures
        r == bounds.height.saturating_sub(3),
{
    bounds.height.saturating_sub(3)
}

/// Night falls at 700 points and day returns at 900; the cycle then repeats
/// every 700 points: night from 700 + 700k to 899 + 700k, day otherwise.
pub open spec fn spec_is_night(score: u32) -> bool {
    score >= 700 && (score - 700) % 700 < 200
}

/// Whether the Dino scene is drawn in night colours at a score.
pub fn is_night(score: u32) -> (r: bool)
    ensures
        r == spec_is_night(score),
{
    if score < 700 {
        false
    } else {
        (score - 700) % 700 < 200
    }
}

} // verus!
