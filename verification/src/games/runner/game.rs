use vstd::prelude::*;

use crate::engine::input::Key;
use crate::games::runner::logic;
use crate::games::runner::logic::{after_input, input_overflows, runner_tick};
use crate::games::runner::state::{initial_runner, RunnerModel, RunnerState};
use crate::types::game::{end_key_any, session_status, spec_end_key_any, spec_session_status, EndKey, GameResult};
use crate::types::geometry::TerminalSize;

verus! {

/// A Runner session as the game loop drives it.
pub struct Runner {
    state: RunnerState,
    retry_requested: bool,
}

/// What a key press does to a Runner session: once the game is over, Retry
/// asks for another round and any other bound key ends the session; before,
/// the key is played.
pub open spec fn runner_key(m: RunnerModel, retry: bool, key: Key) -> (RunnerModel, bool) {
    if m.is_game_over {
        match spec_end_key_any(key) {
            EndKey::Retry => (m, true),
            EndKey::Leave => (RunnerModel { is_complete: true, ..m }, retry),
            EndKey::Stay => (m, retry),
        }
    } else {
        (after_input(m, key), retry)
    }
}

/// The result that a Runner session reports: Retry once asked for, game over
/// once the session is complete, nothing while it runs; both carry the score
/// and level.
pub open spec fn runner_status(m: RunnerModel, retry: bool) -> Option<GameResult> {
    spec_session_status(retry, m.is_complete, true, m.score, m.level)
}

impl Runner {
    /// The session state, for drawing.
    pub closed spec fn model(&self) -> RunnerModel {
        self.state@
    }

    /// Whether the player asked for another round.
    pub closed spec fn retry_requested(&self) -> bool {
        self.retry_requested
    }

    /// Constructs a fresh session.
    pub fn new(viewport: TerminalSize) -> (r: Self)
        ensures
            r.model() == initial_runner(viewport),
            !r.retry_requested(),
    {
        Self { state: RunnerState::new(viewport), retry_requested: false }
    }

    /// The session state, for drawing.
    pub fn state(&self) -> (r: &RunnerState)
        ensures
            r@ == self.model(),
    {
        &self.state
    }

    /// Adapts the session to a new terminal size.
    pub fn resize(&mut self, size: TerminalSize)
        ensures
            final(self).model() == (RunnerModel { bounds: size, ..old(self).model() }),
            final(self).retry_requested() == old(self).retry_requested(),
    {
        self.state.bounds = size;
    }

    /// Advances the session by one tick.
    pub fn tick(&mut self)
        ensures
            final(self).model() == runner_tick(old(self).model()),
            final(self).retry_requested() == old(self).retry_requested(),
    {
        logic::tick(&mut self.state);
    }

    /// Whether `key` can be played without overflowing the speed.
    pub fn accepts(&self, key: Key) -> (r: bool)
        ensures
            r == !input_overflows(self.model(), key),
    {
        self.state.is_game_over || !(key == Key::Dir(crate::types::geometry::Direction::Right)
            || key == Key::Action) || self.state.speed <= u16::MAX - 5
    }

    /// Applies a key press.
    pub fn handle_input(&mut self, key: Key)
        requires
            !input_overflows(old(self).model(), key),
        ensures
            (final(self).model(), final(self).retry_requested()) == runner_key(
                old(self).model(),
                old(self).retry_requested(),
                key,
            ),
    {
        if self.state.is_game_over {
            match end_key_any(key) {
                EndKey::Retry => self.retry_requested = true,
                EndKey::Leave => self.state.is_complete = true,
                EndKey::Stay => {},
            }
        } else {
            logic::handle_input(&mut self.state, key);
        }
    }

    /// The result of the session once it has ended.
    pub fn status(&self) -> (r: Option<GameResult>)
        ensures
            r == runner_status(self.model(), self.retry_requested()),
    {
        session_status(self.retry_requested, self.state.is_complete, true, self.state.score, self.state.level)
    }
}

} // verus!
