use vstd::prelude::*;

use crate::engine::input::Key;
use crate::games::minesweeper::logic;
use crate::games::minesweeper::logic::{after_input, mines_tick};
use crate::games::minesweeper::state::{
    initial_minesweeper, mines_wf, MinesweeperModel, MinesweeperState,
};
use crate::types::game::GameResult;
use crate::types::geometry::TerminalSize;

verus! {

/// A Minesweeper session as the game loop drives it.
pub struct Minesweeper {
    state: MinesweeperState,
    retry_requested: bool,
}

/// What a key press does to a session: after the game is over, Retry or
/// Action ask for another round and Quit ends the session; before, the key is
/// played.
pub open spec fn minesweeper_key(m: MinesweeperModel, retry: bool, key: Key) -> (MinesweeperModel, bool) {
    if m.is_game_over {
        match key {
            Key::Retry | Key::Action => (m, true),
            Key::Quit => (MinesweeperModel { is_complete: true, ..m }, retry),
            _ => (m, retry),
        }
    } else {
        (after_input(m, key), retry)
    }
}

/// The result that a session reports: Retry once asked for, game over once
/// complete, nothing while it runs; both carry the score and level.
pub open spec fn minesweeper_status(m: MinesweeperModel, retry: bool) -> Option<GameResult> {
    if retry {
        Some(GameResult::Retry { score: m.score, level: m.level })
    } else if m.is_complete {
        Some(GameResult::GameOver { score: m.score, level: m.level })
    } else {
        None
    }
}

impl Minesweeper {
    /// The session state.
    pub closed spec fn model(&self) -> MinesweeperModel {
        self.state@
    }

    /// Whether the player asked for another round.
    pub closed spec fn retry_requested(&self) -> bool {
        self.retry_requested
    }

    /// The session keeps its piece within computable bounds.
    pub closed spec fn wf(&self) -> bool {
        mines_wf(self.state@)
    }

    /// Constructs a fresh session.
    pub fn new(viewport: TerminalSize) -> (r: Self)
        ensures
            r.model() == initial_minesweeper(viewport),
            !r.retry_requested(),
            r.wf(),
    {
        let state = MinesweeperState::new(viewport);
        Self { state, retry_requested: false }
    }

    /// The session state, for drawing.
    pub fn state(&self) -> (r: &MinesweeperState)
        ensures
            r@ == self.model(),
    {
        &self.state
    }

    /// Adapts the session to a new terminal size.
    pub fn resize(&mut self, size: TerminalSize)
        requires
            old(self).wf(),
        ensures
            final(self).model() == (MinesweeperModel { bounds: size, ..old(self).model() }),
            final(self).retry_requested() == old(self).retry_requested(),
            final(self).wf(),
    {
        self.state.bounds = size;
    }

    /// Advances the session by one frame.
    pub fn tick(&mut self)
        requires
            old(self).wf(),
        ensures
            final(self).model() == (if old(self).model().is_game_over {
                old(self).model()
            } else {
                mines_tick(old(self).model())
            }),
            final(self).retry_requested() == old(self).retry_requested(),
            final(self).wf(),
    {
        if self.state.is_game_over {
            return;
        }
        logic::tick(&mut self.state);
    }

    /// Applies a key press.
    pub fn handle_input(&mut self, key: Key)
        requires
            old(self).wf(),
        ensures
            (final(self).model(), final(self).retry_requested()) == minesweeper_key(
                old(self).model(),
                old(self).retry_requested(),
                key,
            ),
            final(self).wf(),
    {
        if self.state.is_game_over {
            match key {
                Key::Retry | Key::Action => self.retry_requested = true,
                Key::Quit => self.state.is_complete = true,
                _ => {},
            }
        } else {
            logic::handle_input(&mut self.state, key);
        }
    }

    /// The result of the session once it has ended.
    pub fn status(&self) -> (r: Option<GameResult>)
        ensures
            r == minesweeper_status(self.model(), self.retry_requested()),
    {
        if self.retry_requested {
            Some(GameResult::Retry { score: self.state.score, level: self.state.level })
        } else if self.state.is_complete {
            Some(GameResult::GameOver { score: self.state.score, level: self.state.level })
        } else {
            None
        }
    }
}

} // verus!
