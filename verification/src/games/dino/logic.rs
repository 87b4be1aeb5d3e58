use vstd::prelude::*;

use crate::engine::input::Key;
use crate::games::dino::state::{DinoObstacleKind, DinoStatus};
use crate::types::geometry::{Direction, Level};

verus! {

/// The obstacle drawn for a random value at a score: the value's last decimal
/// digit picks it; clusters come from 300 points on and birds from 500 on,
/// and every pick that is not yet available is a small cactus.
pub open spec fn spec_pick_kind(rand_value: u64, score: u32) -> DinoObstacleKind {
    let bucket = rand_value % 10;
    if bucket == 4 || bucket == 5 {
        DinoObstacleKind::LargeCactus
    } else if bucket == 6 && score >= 300 {
        DinoObstacleKind::CactusCluster
    } else if (bucket == 7 || bucket == 8) && score >= 500 {
        DinoObstacleKind::LowBird
    } else if bucket == 9 && score >= 500 {
        DinoObstacleKind::HighBird
    } else {
        DinoObstacleKind::SmallCactus
    }
}

/// Picks the kind of the next obstacle.
pub fn pick_kind(rand_value: u64, score: u32) -> (r: DinoObstacleKind)
    ensures
        r == spec_pick_kind(rand_value, score),
        score < 500 ==> !(r is LowBird || r is HighBird),
        score < 300 ==> !(r is CactusCluster),
{
    let rand_bucket = rand_value % 10;
    match rand_bucket {
        4 | 5 => DinoObstacleKind::LargeCactus,
        6 if score >= 300 => DinoObstacleKind::CactusCluster,
        7 if score >= 500 => DinoObstacleKind::LowBird,
        8 if score >= 500 => DinoObstacleKind::LowBird,
        9 if score >= 500 => DinoObstacleKind::HighBird,
        _ => DinoObstacleKind::SmallCactus,
    }
}

/// The level reached with a score: one more than the score over 250, at
/// most 10.
pub open spec fn spec_level_for_score(score: u32) -> Level {
    let l = score / 250 + 1;
    Level(if l < 10 { l as u8 } else { 10 })
}

/// The level that a score reaches.
pub fn level_for_score(score: u32) -> (r: Level)
    ensures
        r == spec_level_for_score(score),
        1 <= r.0 <= 10,
{
    let l = score / 250 + 1;
    Level(if l < 10 { l as u8 } else { 10 })
}

/// What a key press does to the dinosaur's vertical motion.
#[derive(Debug, Clone, Copy, PartialEq, Eq, Structural)]
pub enum JumpEffect {
    /// The motion is unchanged.
    Keep,
    /// A jump starts: the upward speed is set.
    Launch,
    /// A fast fall: the upward speed drops.
    FastFall,
}

/// The dinosaur's status and motion change after a key: Action or Up jump
/// from the ground (neither jumping nor ducking); Down falls fast while
/// jumping and ducks otherwise; other keys change nothing.
pub open spec fn spec_dino_key(status: DinoStatus, key: Key) -> (DinoStatus, JumpEffect) {
    match key {
        Key::Action | Key::Dir(Direction::Up) => if !(status is Jumping) && !(status is Ducking) {
            (DinoStatus::Jumping, JumpEffect::Launch)
        } else {
            (status, JumpEffect::Keep)
        },
        Key::Dir(Direction::Down) => if status is Jumping {
            (status, JumpEffect::FastFall)
        } else {
            (DinoStatus::Ducking, JumpEffect::Keep)
        },
        _ => (status, JumpEffect::Keep),
    }
}

/// Decides what a key press does to the dinosaur.
pub fn dino_key(status: DinoStatus, key: Key) -> (r: (DinoStatus, JumpEffect))
    ensures
        r == spec_dino_key(status, key),
{
    match key {
        Key::Action | Key::Dir(Direction::Up) => {
            if !status.is_jumping() && !status.is_ducking() {
                (DinoStatus::Jumping, JumpEffect::Launch)
            } else {
                (status, JumpEffect::Keep)
            }
        },
        Key::Dir(Direction::Down) => {
            if status.is_jumping() {
                (status, JumpEffect::FastFall)
            } else {
                (DinoStatus::Ducking, JumpEffect::Keep)
            }
        },
        _ => (status, JumpEffect::Keep),
    }
}

/// A ducking dinosaur stands up again when Down is no longer held; any other
/// status stays.
pub fn release_duck(status: DinoStatus) -> (r: DinoStatus)
    ensures
        r == (if status is Ducking { DinoStatus::Running } else { status }),
{
    if status.is_ducking() {
        DinoStatus::Running
    } else {
        status
    }
}

} // verus!
