use vstd::prelude::*;

use crate::types::geometry::{Level, Score, TerminalSize};

verus! {

/// A car in one of the lanes, `col` being its leftmost column.
#[derive(Debug, Clone, Copy, PartialEq, Eq, Structural)]
pub struct TrafficCar {
    pub lane: u8,
    pub col: u16,
    pub width: u16,
}

/// The whole state of a Runner session.
#[derive(Debug, Clone)]
pub struct RunnerState {
    pub player_lane: u8,
    pub speed: u16,
    pub obstacles: Vec<TrafficCar>,
    pub score: Score,
    pub level: Level,
    pub tick: u64,
    /// Offset of the dashed lane markings, advanced by the speed each tick.
    pub road_scroll: u16,
    pub is_game_over: bool,
    pub is_complete: bool,
    pub bounds: TerminalSize,
}

/// The state of a Runner session as a mathematical value.
#[verifier::ext_equal]
pub struct RunnerModel {
    pub player_lane: u8,
    pub speed: u16,
    pub obstacles: Seq<TrafficCar>,
    pub score: Score,
    pub level: Level,
    pub tick: u64,
    pub road_scroll: u16,
    pub is_game_over: bool,
    pub is_complete: bool,
    pub bounds: TerminalSize,
}

impl View for RunnerState {
    type V = RunnerModel;

    open spec fn view(&self) -> RunnerModel {
        RunnerModel {
            player_lane: self.player_lane,
            speed: self.speed,
            obstacles: self.obstacles@,
            score: self.score,
            level: self.level,
            tick: self.tick,
            road_scroll: self.road_scroll,
            is_game_over: self.is_game_over,
            is_complete: self.is_complete,
            bounds: self.bounds,
        }
    }
}

/// Number of traffic lanes.
pub open spec fn spec_lane_count() -> u8 {
    4
}

/// Rows taken by the score line and its rule.
pub open spec fn spec_hud_height() -> u16 {
    2
}

/// Height of one lane for a terminal of the given height.
pub open spec fn lane_height(bounds: TerminalSize) -> int {
    bounds.height.saturating_sub(3) as int / 4
}

/// The fresh state of a session on a terminal of the given size: middle-upper
/// lane, speed 60, no cars, score 0, level 1.
pub open spec fn initial_runner(bounds: TerminalSize) -> RunnerModel {
    RunnerModel {
        player_lane: 1,
        speed: 60,
        obstacles: Seq::empty(),
        score: Score(0),
        level: Level(1),
        tick: 0,
        road_scroll: 0,
        is_game_over: false,
        is_complete: false,
        bounds,
    }
}

impl RunnerState {
    /// A fresh session on a terminal of the given size.
    pub fn new(bounds: TerminalSize) -> (r: Self)
        ensures
            r@ == initial_runner(bounds),
    {
        Self {
            player_lane: 1,
            speed: 60,
            obstacles: Vec::with_capacity(16),
            score: Score(0),
            level: Level(1),
            tick: 0,
            road_scroll: 0,
            is_game_over: false,
            is_complete: false,
            bounds,
        }
    }

    /// Number of traffic lanes (4).
    pub fn lane_count() -> (r: u8)
        ensures
            r == spec_lane_count(),
    {
        4
    }

    /// Rows taken by the HUD (2).
    pub fn hud_height() -> (r: u16)
        ensures
            r == spec_hud_height(),
    {
        2
    }

    /// The row at the vertical centre of `lane`.
    pub fn lane_y(&self, lane: u8) -> (r: u16)
        requires
            2 + lane * lane_height(self.bounds) + lane_height(self.bounds) / 2 <= u16::MAX,
        ensures
            r == 2 + lane * lane_height(self.bounds) + lane_height(self.bounds) / 2,
    {
        let playfield_height: u16 = self.bounds.height.saturating_sub(Self::hud_height() + 1);
        let lane_height: u16 = playfield_height / (Self::lane_count() as u16);
        proof {
            assert(0 <= lane * lane_height) by (nonlinear_arith);
        }
        Self::hud_height() + (lane as u16) * lane_height + lane_height / 2
    }

    /// The row of the dashed line below lane `divider_index`.
    pub fn lane_divider_y(&self, divider_index: u8) -> (r: u16)
        requires
            divider_index < u8::MAX,
            2 + (divider_index + 1) * lane_height(self.bounds) <= u16::MAX,
        ensures
            r == 2 + (divider_index + 1) * lane_height(self.bounds),
    {
        let playfield_height: u16 = self.bounds.height.saturating_sub(Self::hud_height() + 1);
        let lane_height: u16 = playfield_height / (Self::lane_count() as u16);
        proof {
            assert(0 <= (divider_index + 1) * lane_height) by (nonlinear_arith);
        }
        Self::hud_height() + ((divider_index + 1) as u16) * lane_height
    }

    /// Leftmost column of the player's car (6).
    pub fn player_col() -> (r: u16)
        ensures
            r == 6,
    {
        6
    }
}

} // verus!
