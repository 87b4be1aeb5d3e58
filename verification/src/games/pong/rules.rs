use vstd::prelude::*;

use crate::engine::input::Key;
use crate::types::geometry::{Direction, Level, Score};

verus! {

/// Points that end a Pong match.
pub const WINNING_SCORE: u8 = 11;

/// Rows of a paddle.
pub const PADDLE_HEIGHT: u16 = 5;

/// The side that won a rally.
#[derive(Debug, Clone, Copy, PartialEq, Eq, Structural)]
pub enum Scorer {
    /// The ball left on the right: the player scores.
    Player,
    /// The ball left on the left: the computer (or second player) scores.
    Cpu,
}

/// The score keeping of a Pong match.
#[derive(Debug, Clone, Copy, PartialEq, Eq, Structural)]
pub struct PongTally {
    pub player_score: u8,
    pub cpu_score: u8,
    pub score: Score,
    pub level: Level,
    pub is_game_over: bool,
    pub is_complete: bool,
}

/// The tally after a rally (or a frame without one, `None`): a point for the
/// player adds 100 to the score and sets the level to half the player's
/// points plus one (at most 10); then the match is complete once the player
/// has 11 points, or over once the computer has.
pub open spec fn spec_score_point(t: PongTally, scorer: Option<Scorer>) -> PongTally {
    let t1 = match scorer {
        Some(Scorer::Cpu) => PongTally { cpu_score: t.cpu_score.saturating_add(1), ..t },
        Some(Scorer::Player) => {
            let p = t.player_score.saturating_add(1);
            let l = p / 2 + 1;
            PongTally {
                player_score: p,
                score: Score(t.score.0.saturating_add(100)),
                level: Level(if l < 10 { l as u8 } else { 10 }),
                ..t
            }
        },
        None => t,
    };
    if t1.player_score >= WINNING_SCORE {
        PongTally { is_complete: true, ..t1 }
    } else if t1.cpu_score >= WINNING_SCORE {
        PongTally { is_game_over: true, ..t1 }
    } else {
        t1
    }
}

/// Counts a rally and decides whether the match has ended.
pub fn score_point(t: PongTally, scorer: Option<Scorer>) -> (r: PongTally)
    ensures
        r == spec_score_point(t, scorer),
        r.player_score >= WINNING_SCORE || r.cpu_score >= WINNING_SCORE ==> r.is_complete || r.is_game_over,
{
    let mut r = t;
    match scorer {
        Some(Scorer::Cpu) => {
            r.cpu_score = r.cpu_score.saturating_add(1);
        },
        Some(Scorer::Player) => {
            r.player_score = r.player_score.saturating_add(1);
            r.score = Score(r.score.0.saturating_add(100));
            let l = r.player_score / 2 + 1;
            r.level = Level(if l < 10 { l } else { 10 });
        },
        None => {},
    }
    if r.player_score >= WINNING_SCORE {
        r.is_complete = true;
    } else if r.cpu_score >= WINNING_SCORE {
        r.is_game_over = true;
    }
    r
}

/// Only the player's points are worth arcade points: a point for the
/// computer adds one to its count and leaves the score, the player's points
/// and the level alone; a point for the player adds one to the player's
/// points and 100 to the score (up to the score's limit), with the level at
/// half the player's points plus one, at most 10; a frame without a point
/// changes no count.
pub proof fn lemma_points_and_score(t: PongTally)
    requires
        t.player_score < u8::MAX,
        t.cpu_score < u8::MAX,
    ensures
        ({
            let r = spec_score_point(t, Some(Scorer::Cpu));
            &&& r.cpu_score == t.cpu_score + 1
            &&& r.score == t.score
            &&& r.player_score == t.player_score
            &&& r.level == t.level
        }),
        ({
            let r = spec_score_point(t, Some(Scorer::Player));
            &&& r.player_score == t.player_score + 1
            &&& r.cpu_score == t.cpu_score
            &&& r.score.0 == (if t.score.0 + 100 <= u32::MAX { t.score.0 + 100 } else { u32::MAX as int })
            &&& r.level.0 == (if (t.player_score + 1) / 2 + 1 <= 10 { (t.player_score + 1) / 2 + 1 } else { 10 })
        }),
        ({
            let r = spec_score_point(t, None);
            &&& r.player_score == t.player_score
            &&& r.cpu_score == t.cpu_score
            &&& r.score == t.score
            &&& r.level == t.level
        }),
{
}

/// What a key press does in a Pong match.
#[derive(Debug, Clone, Copy, PartialEq, Eq, Structural)]
pub enum PongMove {
    /// Turn on two-player mode.
    TwoPlayer,
    /// Move the player's (left) paddle up.
    PlayerUp,
    /// Move the player's (left) paddle down.
    PlayerDown,
    /// Move the right paddle up (two-player mode).
    CpuUp,
    /// Move the right paddle down (two-player mode).
    CpuDown,
    /// Nothing.
    Stay,
}

/// The move for a key: 2 turns on two-player mode during the first 30 frames;
/// Up and Down move the left paddle; Left and Right move the right paddle in
/// two-player mode; every other key does nothing.
pub open spec fn spec_pong_move(tick: u64, is_two_player: bool, key: Key) -> PongMove {
    match key {
        Key::Number(2) => if tick < 30 { PongMove::TwoPlayer } else { PongMove::Stay },
        Key::Dir(Direction::Up) => PongMove::PlayerUp,
        Key::Dir(Direction::Down) => PongMove::PlayerDown,
        Key::Dir(Direction::Left) => if is_two_player { PongMove::CpuUp } else { PongMove::Stay },
        Key::Dir(Direction::Right) => if is_two_player { PongMove::CpuDown } else { PongMove::Stay },
        _ => PongMove::Stay,
    }
}

/// Decides what a key press does in a running match.
pub fn pong_move(tick: u64, is_two_player: bool, key: Key) -> (r: PongMove)
    ensures
        r == spec_pong_move(tick, is_two_player, key),
{
    match key {
        Key::Number(2) => if tick < 30 { PongMove::TwoPlayer } else { PongMove::Stay },
        Key::Dir(Direction::Up) => PongMove::PlayerUp,
        Key::Dir(Direction::Down) => PongMove::PlayerDown,
        Key::Dir(Direction::Left) => if is_two_player { PongMove::CpuUp } else { PongMove::Stay },
        Key::Dir(Direction::Right) => if is_two_player { PongMove::CpuDown } else { PongMove::Stay },
        _ => PongMove::Stay,
    }
}

} // verus!
