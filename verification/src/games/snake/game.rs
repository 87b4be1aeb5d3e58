use vstd::prelude::*;

use crate::engine::input::Key;
use crate::games::snake::logic;
use crate::games::snake::logic::{after_input, snake_tick, snake_wf, FRAME_MS};
use crate::games::snake::state::{initial_snake, SnakeModel, SnakeState};
use crate::types::game::GameResult;
use crate::types::geometry::TerminalSize;

verus! {

/// A Snake session as the game loop drives it.
pub struct Snake {
    state: SnakeState,
    retry_requested: bool,
}

/// What a key press does to a session that is over: Retry or Action ask for
/// another round, Quit ends the session; other keys do nothing.
pub open spec fn snake_key(m: SnakeModel, retry: bool, key: Key) -> (SnakeModel, bool) {
    if m.is_game_over {
        match key {
            Key::Retry | Key::Action => (m, true),
            Key::Quit => (SnakeModel { is_complete: true, ..m }, retry),
            _ => (m, retry),
        }
    } else {
        (after_input(m, key), retry)
    }
}

/// The result that a session reports: Retry once asked for, game over once
/// complete, nothing while it runs; both carry the score and level.
pub open spec fn snake_status(m: SnakeModel, retry: bool) -> Option<GameResult> {
    if retry {
        Some(GameResult::Retry { score: m.score, level: m.level })
    } else if m.is_complete {
        Some(GameResult::GameOver { score: m.score, level: m.level })
    } else {
        None
    }
}

impl Snake {
    /// The session state.
    pub closed spec fn model(&self) -> SnakeModel {
        self.state@
    }

    /// Whether the player asked for another round.
    pub closed spec fn retry_requested(&self) -> bool {
        self.retry_requested
    }

    /// Constructs a fresh session.
    pub fn new(viewport: TerminalSize) -> (r: Self)
        ensures
            r.model() == initial_snake(viewport),
            !r.retry_requested(),
    {
        Self { state: SnakeState::new(viewport), retry_requested: false }
    }

    /// The session state, for drawing.
    pub fn state(&self) -> (r: &SnakeState)
        ensures
            r@ == self.model(),
    {
        &self.state
    }

    /// Adapts the session to a new terminal size.
    pub fn resize(&mut self, size: TerminalSize)
        ensures
            final(self).model() == (SnakeModel { bounds: size, ..old(self).model() }),
            final(self).retry_requested() == old(self).retry_requested(),
    {
        self.state.bounds = size;
    }

    /// Whether the next frame can be played: a finished game always can (it
    /// does not change); a running one needs a head whose neighbours are on
    /// the grid and a frame clock that does not overflow.
    pub fn can_tick(&self) -> (r: bool)
        ensures
            r == (self.model().is_game_over || self.model().is_complete || (snake_wf(self.model())
                && self.model().tick_accumulator + FRAME_MS <= u64::MAX)),
    {
        if self.state.is_game_over || self.state.is_complete {
            return true;
        }
        if self.state.segments.len() == 0 {
            return false;
        }
        let head = self.state.segments[0];
        head.x > i32::MIN && head.x < i32::MAX && head.y > i32::MIN && head.y < i32::MAX
            && self.state.tick_accumulator <= u64::MAX - FRAME_MS
    }

    /// Advances the session by one frame.
    pub fn tick(&mut self)
        requires
            !old(self).model().is_game_over && !old(self).model().is_complete ==> snake_wf(old(self).model())
                && old(self).model().tick_accumulator + FRAME_MS <= u64::MAX,
        ensures
            final(self).model() == (if old(self).model().is_game_over {
                old(self).model()
            } else {
                snake_tick(old(self).model())
            }),
            final(self).retry_requested() == old(self).retry_requested(),
    {
        if self.state.is_game_over {
            return;
        }
        logic::tick(&mut self.state);
    }

    /// Applies a key press.
    pub fn handle_input(&mut self, key: Key)
        ensures
            (final(self).model(), final(self).retry_requested()) == snake_key(
                old(self).model(),
                old(self).retry_requested(),
                key,
            ),
    {
        if self.state.is_game_over {
            match key {
                Key::Retry | Key::Action => self.retry_requested = true,
                Key::Quit => self.state.is_complete = true,
                _ => {},
            }
        } else {
            logic::handle_input(&mut self.state, key);
        }
    }

    /// The result of the session once it has ended.
    pub fn status(&self) -> (r: Option<GameResult>)
        ensures
            r == snake_status(self.model(), self.retry_requested()),
    {
        if self.retry_requested {
            Some(GameResult::Retry { score: self.state.score, level: self.state.level })
        } else if self.state.is_complete {
            Some(GameResult::GameOver { score: self.state.score, level: self.state.level })
        } else {
            None
        }
    }
}

} // verus!
