use vstd::prelude::*;

use crate::engine::input::Key;
use crate::games::tetris::logic;
use crate::games::tetris::logic::{after_input, tetris_tick, tetris_wf, FRAME_MS};
use crate::games::tetris::state::{initial_tetris, TetrisModel, TetrisState};
use crate::types::game::GameResult;
use crate::types::geometry::TerminalSize;

verus! {

/// A Tetris session as the game loop drives it.
pub struct Tetris {
    state: TetrisState,
    retry_requested: bool,
}

/// What a key press does to a session: after the game is over, Retry or
/// Action ask for another round and Quit ends the session; before, the key is
/// played.
pub open spec fn tetris_key(m: TetrisModel, retry: bool, key: Key) -> (TetrisModel, bool) {
    if m.is_game_over {
        match key {
            Key::Retry | Key::Action => (m, true),
            Key::Quit => (TetrisModel { is_complete: true, ..m }, retry),
            _ => (m, retry),
        }
    } else {
        (after_input(m, key), retry)
    }
}

/// The result that a session reports: Retry once asked for, game over once
/// complete, nothing while it runs; both carry the score and level.
pub open spec fn tetris_status(m: TetrisModel, retry: bool) -> Option<GameResult> {
    if retry {
        Some(GameResult::Retry { score: m.score, level: m.level })
    } else if m.is_complete {
        Some(GameResult::GameOver { score: m.score, level: m.level })
    } else {
        None
    }
}

impl Tetris {
    /// The session state.
    pub closed spec fn model(&self) -> TetrisModel {
        self.state@
    }

    /// Whether the player asked for another round.
    pub closed spec fn retry_requested(&self) -> bool {
        self.retry_requested
    }

    /// The session keeps its piece within computable bounds.
    pub closed spec fn wf(&self) -> bool {
        tetris_wf(self.state@)
    }

    /// Constructs a fresh session.
    pub fn new(viewport: TerminalSize) -> (r: Self)
        ensures
            r.model() == initial_tetris(viewport),
            !r.retry_requested(),
            r.wf(),
    {
        let state = TetrisState::new(viewport);
        Self { state, retry_requested: false }
    }

    /// The session state, for drawing.
    pub fn state(&self) -> (r: &TetrisState)
        ensures
            r@ == self.model(),
    {
        &self.state
    }

    /// Adapts the session to a new terminal size.
    pub fn resize(&mut self, size: TerminalSize)
        requires
            old(self).wf(),
        ensures
            final(self).model() == (TetrisModel { bounds: size, ..old(self).model() }),
            final(self).retry_requested() == old(self).retry_requested(),
            final(self).wf(),
    {
        self.state.bounds = size;
    }

    /// Whether the next frame can be played: a finished game always can (it
    /// does not change); a running one needs a frame clock with room for a frame.
    pub fn can_tick(&self) -> (r: bool)
        ensures
            r == (self.model().is_game_over || self.model().is_complete || self.model().tick_accumulator
                + FRAME_MS <= u64::MAX),
    {
        self.state.is_game_over || self.state.is_complete || self.state.tick_accumulator <= u64::MAX - FRAME_MS
    }

    /// Advances the session by one frame.
    pub fn tick(&mut self)
        requires
            old(self).wf(),
            !old(self).model().is_game_over && !old(self).model().is_complete
                ==> old(self).model().tick_accumulator + FRAME_MS <= u64::MAX,
        ensures
            final(self).model() == (if old(self).model().is_game_over {
                old(self).model()
            } else {
                tetris_tick(old(self).model())
            }),
            final(self).retry_requested() == old(self).retry_requested(),
            final(self).wf(),
    {
        if self.state.is_game_over {
            return;
        }
        logic::tick(&mut self.state);
    }

    /// Applies a key press.
    pub fn handle_input(&mut self, key: Key)
        requires
            old(self).wf(),
        ensures
            (final(self).model(), final(self).retry_requested()) == tetris_key(
                old(self).model(),
                old(self).retry_requested(),
                key,
            ),
            final(self).wf(),
    {
        if self.state.is_game_over {
            match key {
                Key::Retry | Key::Action => self.retry_requested = true,
                Key::Quit => self.state.is_complete = true,
                _ => {},
            }
        } else {
            logic::handle_input(&mut self.state, key);
        }
    }

    /// The result of the session once it has ended.
    pub fn status(&self) -> (r: Option<GameResult>)
        ensures
            r == tetris_status(self.model(), self.retry_requested()),
    {
        if self.retry_requested {
            Some(GameResult::Retry { score: self.state.score, level: self.state.level })
        } else if self.state.is_complete {
            Some(GameResult::GameOver { score: self.state.score, level: self.state.level })
        } else {
            None
        }
    }
}

} // verus!
