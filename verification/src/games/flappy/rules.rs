use vstd::prelude::*;

use crate::types::geometry::Level;

verus! {

/// The height of the gap in the pipes: nine rows less one per level up to
/// level 6, and never under four.
pub open spec fn spec_gap_height(level: Level) -> u16 {
    let shrink: u16 = if level.0 < 6 { level.0 as u16 } else { 6 };
    let h = 9u16.saturating_sub(shrink);
    if h < 4 { 4 } else { h }
}

/// The gap height at a level.
pub fn gap_height(level: Level) -> (r: u16)
    ensures
        r == spec_gap_height(level),
        4 <= r <= 9,
{
    let shrink: u16 = if level.0 < 6 { level.0 as u16 } else { 6 };
    let h = 9u16.saturating_sub(shrink);
    if h < 4 { 4 } else { h }
}

/// The top row of a new pipe's gap: row 4 plus the random value modulo the
/// rows between row 4 and six rows above the ground (at least one).
pub open spec fn spec_pipe_gap_y(ground_y: u16, rand_value: u64) -> u16 {
    let max_y = ground_y.saturating_sub(6);
    let span = max_y.saturating_sub(4);
    let range: u16 = if span < 1 { 1 } else { span };
    4u16.saturating_add((rand_value % (range as u64)) as u16)
}

/// Places the gap of a new pipe.
pub fn pipe_gap_y(ground_y: u16, rand_value: u64) -> (r: u16)
    ensures
        r == spec_pipe_gap_y(ground_y, rand_value),
        4 <= r,
        ground_y >= 11 ==> r < ground_y - 6,
{
    let min_y: u16 = 4;
    let max_y = ground_y.saturating_sub(6);
    let span = max_y.saturating_sub(min_y);
    let range: u16 = if span < 1 { 1 } else { span };
    let offset = (rand_value % (range as u64)) as u16;
    min_y.saturating_add(offset)
}

/// The level reached with a score: one more than the tens, at most 10.
pub open spec fn spec_level_for_score(score: u32) -> Level {
    let l = score / 10 + 1;
    Level(if l < 10 { l as u8 } else { 10 })
}

/// The level that a score reaches.
pub fn level_for_score(score: u32) -> (r: Level)
    ensures
        r == spec_level_for_score(score),
        1 <= r.0 <= 10,
{
    let l = score / 10 + 1;
    Level(if l < 10 { l as u8 } else { 10 })
}

} // verus!
