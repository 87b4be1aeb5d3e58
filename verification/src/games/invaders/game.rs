use vstd::prelude::*;

use crate::engine::input::Key;
use crate::games::invaders::logic;
use crate::games::invaders::logic::{after_input, invaders_tick, invaders_wf};
use crate::games::invaders::state::{initial_invaders, InvadersModel, InvadersState};
use crate::types::game::GameResult;
use crate::types::geometry::TerminalSize;

verus! {

/// An Invaders session as the game loop drives it.
pub struct Invaders {
    state: InvadersState,
    retry_requested: bool,
}

/// What a key press does to a session: after the game is over, Retry or
/// Action ask for another round and Quit ends the session; before, the key is
/// played.
pub open spec fn invaders_key(m: InvadersModel, retry: bool, key: Key) -> (InvadersModel, bool) {
    if m.is_game_over {
        match key {
            Key::Retry | Key::Action => (m, true),
            Key::Quit => (InvadersModel { is_complete: true, ..m }, retry),
            _ => (m, retry),
        }
    } else {
        (after_input(m, key), retry)
    }
}

/// The result that a session reports: Retry once asked for, game over once
/// complete, nothing while it runs; both carry the score and level.
pub open spec fn invaders_status(m: InvadersModel, retry: bool) -> Option<GameResult> {
    if retry {
        Some(GameResult::Retry { score: m.score, level: m.level })
    } else if m.is_complete {
        Some(GameResult::GameOver { score: m.score, level: m.level })
    } else {
        None
    }
}

impl Invaders {
    /// The session state.
    pub closed spec fn model(&self) -> InvadersModel {
        self.state@
    }

    /// Whether the player asked for another round.
    pub closed spec fn retry_requested(&self) -> bool {
        self.retry_requested
    }

    /// The session keeps its piece within computable bounds.
    pub closed spec fn wf(&self) -> bool {
        invaders_wf(self.state@)
    }

    /// Constructs a fresh session.
    pub fn new(viewport: TerminalSize) -> (r: Self)
        ensures
            r.model() == initial_invaders(viewport),
            !r.retry_requested(),
            r.wf(),
    {
        let state = InvadersState::new(viewport);
        Self { state, retry_requested: false }
    }

    /// The session state, for drawing.
    pub fn state(&self) -> (r: &InvadersState)
        ensures
            r@ == self.model(),
    {
        &self.state
    }

    /// Adapts the session to a new terminal size.
    pub fn resize(&mut self, size: TerminalSize)
        requires
            old(self).wf(),
        ensures
            final(self).model() == (InvadersModel { bounds: size, ..old(self).model() }),
            final(self).retry_requested() == old(self).retry_requested(),
            final(self).wf(),
    {
        self.state.bounds = size;
    }

    /// Advances the session by one tick.
    pub fn tick(&mut self)
        requires
            old(self).wf(),
        ensures
            final(self).model() == (if old(self).model().is_game_over {
                old(self).model()
            } else {
                invaders_tick(old(self).model())
            }),
            final(self).retry_requested() == old(self).retry_requested(),
            final(self).wf(),
    {
        if self.state.is_game_over {
            return;
        }
        logic::tick(&mut self.state);
    }

    /// Applies a key press.
    pub fn handle_input(&mut self, key: Key)
        requires
            old(self).wf(),
        ensures
            (final(self).model(), final(self).retry_requested()) == invaders_key(
                old(self).model(),
                old(self).retry_requested(),
                key,
            ),
            final(self).wf(),
    {
        if self.state.is_game_over {
            match key {
                Key::Retry | Key::Action => self.retry_requested = true,
                Key::Quit => self.state.is_complete = true,
                _ => {},
            }
        } else {
            logic::handle_input(&mut self.state, key);
        }
    }

    /// The result of the session once it has ended.
    pub fn status(&self) -> (r: Option<GameResult>)
        ensures
            r == invaders_status(self.model(), self.retry_requested()),
    {
        if self.retry_requested {
            Some(GameResult::Retry { score: self.state.score, level: self.state.level })
        } else if self.state.is_complete {
            Some(GameResult::GameOver { score: self.state.score, level: self.state.level })
        } else {
            None
        }
    }
}

} // verus!
