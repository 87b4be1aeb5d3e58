use std::collections::VecDeque;

use vstd::prelude::*;

use crate::types::geometry::{Direction, Level, Score, TerminalSize, Vec2};

verus! {

/// Rows taken by the score line and its rule.
pub const SNAKE_HUD_HEIGHT: u16 = 2;

/// The whole state of a Snake session. Durations are in milliseconds.
#[derive(Debug, Clone)]
pub struct SnakeState {
    /// The body, head first.
    pub segments: VecDeque<Vec2>,
    pub direction: Direction,
    /// Turns typed ahead, applied one per step.
    pub input_queue: VecDeque<Direction>,
    pub food: Vec2,
    pub score: Score,
    pub level: Level,
    /// Milliseconds between two steps of the snake.
    pub tick_rate: u64,
    /// Milliseconds gathered towards the next step.
    pub tick_accumulator: u64,
    pub bounds: TerminalSize,
    pub is_game_over: bool,
    pub is_complete: bool,
}

/// The state of a Snake session as a mathematical value.
#[verifier::ext_equal]
pub struct SnakeModel {
    pub segments: Seq<Vec2>,
    pub direction: Direction,
    pub input_queue: Seq<Direction>,
    pub food: Vec2,
    pub score: Score,
    pub level: Level,
    pub tick_rate: u64,
    pub tick_accumulator: u64,
    pub bounds: TerminalSize,
    pub is_game_over: bool,
    pub is_complete: bool,
}

impl View for SnakeState {
    type V = SnakeModel;

    open spec fn view(&self) -> SnakeModel {
        SnakeModel {
            segments: self.segments@,
            direction: self.direction,
            input_queue: self.input_queue@,
            food: self.food,
            score: self.score,
            level: self.level,
            tick_rate: self.tick_rate,
            tick_accumulator: self.tick_accumulator,
            bounds: self.bounds,
            is_game_over: self.is_game_over,
            is_complete: self.is_complete,
        }
    }
}

/// Centre column of the terminal.
pub open spec fn centre_x(bounds: TerminalSize) -> i32 {
    (bounds.width / 2) as i32
}

/// Centre row of the terminal.
pub open spec fn centre_y(bounds: TerminalSize) -> i32 {
    (bounds.height / 2) as i32
}

/// The snake of a new round: three segments heading right from the centre,
/// no queued turns, food eight columns ahead.
pub open spec fn reset_model(m: SnakeModel) -> SnakeModel {
    let cx = centre_x(m.bounds);
    let cy = centre_y(m.bounds);
    SnakeModel {
        segments: seq![Vec2 { x: cx, y: cy }, Vec2 { x: (cx - 1) as i32, y: cy }, Vec2 { x: (cx - 2) as i32, y: cy }],
        direction: Direction::Right,
        input_queue: Seq::empty(),
        tick_accumulator: 0,
        food: Vec2 { x: (cx + 8) as i32, y: cy },
        ..m
    }
}

/// A fresh session: the reset snake, score 0, level 1, a step every 120 ms.
pub open spec fn initial_snake(bounds: TerminalSize) -> SnakeModel {
    reset_model(
        SnakeModel {
            segments: Seq::empty(),
            direction: Direction::Right,
            input_queue: Seq::empty(),
            food: Vec2 { x: 0, y: 0 },
            score: Score(0),
            level: Level(1),
            tick_rate: 120,
            tick_accumulator: 0,
            bounds,
            is_game_over: false,
            is_complete: false,
        },
    )
}

impl SnakeState {
    /// A fresh session on a terminal of the given size.
    pub fn new(bounds: TerminalSize) -> (r: Self)
        ensures
            r@ == initial_snake(bounds),
    {
        let mut state = Self {
            segments: VecDeque::new(),
            direction: Direction::Right,
            input_queue: VecDeque::new(),
            food: Vec2::new(0, 0),
            score: Score(0),
            level: Level(1),
            tick_rate: 120,
            tick_accumulator: 0,
            bounds,
            is_game_over: false,
            is_complete: false,
        };
        state.reset_snake();
        state
    }

    /// Puts a three-segment snake at the centre, heading right.
    pub fn reset_snake(&mut self)
        ensures
            final(self)@ == reset_model(old(self)@),
    {
        let cx = (self.bounds.width / 2) as i32;
        let cy = (self.bounds.height / 2) as i32;

        self.segments.clear();
        self.segments.push_back(Vec2::new(cx, cy));
        self.segments.push_back(Vec2::new(cx - 1, cy));
        self.segments.push_back(Vec2::new(cx - 2, cy));

        self.direction = Direction::Right;
        self.input_queue.clear();
        self.tick_accumulator = 0;

        self.food = Vec2::new(cx + 8, cy);
    }

    /// First row of the play area (below the HUD).
    pub fn play_area_top(&self) -> (r: i32)
        ensures
            r == SNAKE_HUD_HEIGHT,
    {
        SNAKE_HUD_HEIGHT as i32
    }

    /// Last row of the play area.
    pub fn play_area_bottom(&self) -> (r: i32)
        ensures
            r == self.bounds.height - 1,
    {
        (self.bounds.height as i32) - 1
    }

    /// Last column of the play area.
    pub fn play_area_right(&self) -> (r: i32)
        ensures
            r == self.bounds.width - 1,
    {
        (self.bounds.width as i32) - 1
    }
}

} // verus!
