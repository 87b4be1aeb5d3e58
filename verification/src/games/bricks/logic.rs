use vstd::prelude::*;

use crate::engine::input::Key;
use crate::games::bricks::state::{Brick, BRICK_WIDTH};
use crate::types::geometry::{Direction, Level, Score, TerminalSize};

verus! {

/// Whether a standing brick covers the square (col, row).
pub open spec fn brick_covers(b: Brick, col: u16, row: u16) -> bool {
    b.is_alive && b.col <= col < b.col + BRICK_WIDTH && row == b.row
}

/// The brick after one hit: one hit point less, and gone at none.
pub open spec fn damaged(b: Brick) -> Brick {
    let hp = b.hp.saturating_sub(1);
    Brick { hp, is_alive: if hp == 0 { false } else { b.is_alive }, ..b }
}

/// The paddle's column after a key: Left moves it two columns left (not past
/// column 0), Right two columns right (not past the right edge); other keys
/// leave it.
pub open spec fn spec_paddle_after_key(paddle_col: u16, paddle_width: u16, bounds: TerminalSize, key: Key) -> u16 {
    match key {
        Key::Dir(Direction::Left) => paddle_col.saturating_sub(2),
        Key::Dir(Direction::Right) => {
            let moved = paddle_col.saturating_add(2);
            let limit = bounds.width.saturating_sub(paddle_width);
            if moved > limit { limit } else { moved }
        },
        _ => paddle_col,
    }
}

/// Moves the paddle for a key press.
pub fn paddle_after_key(paddle_col: u16, paddle_width: u16, bounds: TerminalSize, key: Key) -> (r: u16)
    ensures
        r == spec_paddle_after_key(paddle_col, paddle_width, bounds, key),
{
    match key {
        Key::Dir(Direction::Left) => paddle_col.saturating_sub(2),
        Key::Dir(Direction::Right) => {
            let moved = paddle_col.saturating_add(2);
            let limit = bounds.width.saturating_sub(paddle_width);
            if moved > limit { limit } else { moved }
        },
        _ => paddle_col,
    }
}

/// Points for hitting a brick.
pub const BRICK_POINTS: u32 = 10;

/// Damages the first standing brick that covers the ball's square, scores 10
/// points for the hit and returns the brick's index; with none, nothing
/// changes and the result is `None`.
pub fn damage_brick_at(bricks: &mut Vec<Brick>, score: &mut Score, ball_col: u16, ball_row: u16) -> (r: Option<usize>)
    ensures
        *final(score) == (if r is Some { Score(old(score).0.saturating_add(BRICK_POINTS)) } else { *old(score) }),
        match r {
            None => {
                &&& final(bricks)@ == old(bricks)@
                &&& forall|k: int| 0 <= k < old(bricks)@.len() ==> !brick_covers(#[trigger] old(bricks)@[k], ball_col, ball_row)
            },
            Some(i) => {
                &&& i < old(bricks)@.len()
                &&& brick_covers(old(bricks)@[i as int], ball_col, ball_row)
                &&& forall|k: int| 0 <= k < i ==> !brick_covers(#[trigger] old(bricks)@[k], ball_col, ball_row)
                &&& final(bricks)@ == old(bricks)@.update(i as int, damaged(old(bricks)@[i as int]))
            },
        },
{
    let n = bricks.len();
    let mut i: usize = 0;
    while i < n
        invariant
            n == bricks@.len(),
            bricks@ == old(bricks)@,
            *score == *old(score),
            i <= n,
            forall|k: int| 0 <= k < i ==> !brick_covers(#[trigger] bricks@[k], ball_col, ball_row),
        decreases n - i,
    {
        let b = bricks[i];
        if b.is_alive && ball_col >= b.col && (ball_col as u32) < (b.col as u32) + (BRICK_WIDTH as u32)
            && ball_row == b.row {
            let hp = b.hp.saturating_sub(1);
            bricks.set(i, Brick { hp, is_alive: if hp == 0 { false } else { b.is_alive }, ..b });
            *score = Score(score.0.saturating_add(BRICK_POINTS));
            return Some(i);
        }
        i = i + 1;
    }
    None
}

/// Whether any brick is still standing.
pub fn any_brick_alive(bricks: &Vec<Brick>) -> (r: bool)
    ensures
        r <==> exists|k: int| 0 <= k < bricks@.len() && (#[trigger] bricks@[k]).is_alive,
{
    let n = bricks.len();
    let mut i: usize = 0;
    while i < n
        invariant
            n == bricks@.len(),
            i <= n,
            forall|k: int| 0 <= k < i ==> !(#[trigger] bricks@[k]).is_alive,
        decreases n - i,
    {
        if bricks[i].is_alive {
            return true;
        }
        i = i + 1;
    }
    false
}

/// The last level of Bricks.
pub const LAST_LEVEL: u8 = 5;

/// Whether a level is cleared: no brick stands, at a level up to the last.
pub fn level_cleared(level: Level, bricks: &Vec<Brick>) -> (r: bool)
    ensures
        r == (level.0 <= LAST_LEVEL && forall|k: int| 0 <= k < bricks@.len() ==> !(#[trigger] bricks@[k]).is_alive),
{
    if level.0 > LAST_LEVEL {
        return false;
    }
    !any_brick_alive(bricks)
}

/// The level after a cleared one: `None` once the last level is cleared (the
/// game is complete), the next level otherwise.
pub fn next_level(level: Level) -> (r: Option<Level>)
    ensures
        r == (if level.0 >= LAST_LEVEL { None } else { Some(Level((level.0 + 1) as u8)) }),
{
    if level.0 >= LAST_LEVEL {
        None
    } else {
        Some(Level(level.0 + 1))
    }
}

} // verus!
