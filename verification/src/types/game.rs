use vstd::prelude::*;

use crate::engine::input::Key;
use crate::types::geometry::{Level, Score};

verus! {

/// How a game session ended.
#[derive(Debug, Clone, Copy, PartialEq, Eq, Structural)]
pub enum GameResult {
    Quit,
    Retry { score: Score, level: Level },
    GameOver { score: Score, level: Level },
    Complete { score: Score, level: Level },
}

impl GameResult {
    /// The score carried by the result, if any.
    pub open spec fn spec_score(self) -> Option<Score> {
        match self {
            GameResult::Quit => None,
            GameResult::Retry { score, .. } => Some(score),
            GameResult::GameOver { score, .. } => Some(score),
            GameResult::Complete { score, .. } => Some(score),
        }
    }

    /// The level carried by the result, if any.
    pub open spec fn spec_level(self) -> Option<Level> {
        match self {
            GameResult::Quit => None,
            GameResult::Retry { level, .. } => Some(level),
            GameResult::GameOver { level, .. } => Some(level),
            GameResult::Complete { level, .. } => Some(level),
        }
    }

    /// Returns the score of a finished session; `None` when the player quit.
    pub fn score(&self) -> (r: Option<Score>)
        ensures
            r == self.spec_score(),
    {
        match self {
            GameResult::Retry { score, .. } => Some(*score),
            GameResult::GameOver { score, .. } => Some(*score),
            GameResult::Complete { score, .. } => Some(*score),
            GameResult::Quit => None,
        }
    }

    /// Returns the level of a finished session; `None` when the player quit.
    pub fn level(&self) -> (r: Option<Level>)
        ensures
            r == self.spec_level(),
    {
        match self {
            GameResult::Retry { level, .. } => Some(*level),
            GameResult::GameOver { level, .. } => Some(*level),
            GameResult::Complete { level, .. } => Some(*level),
            GameResult::Quit => None,
        }
    }

    /// True exactly when the player asked to play the same game again.
    pub fn should_retry(&self) -> (r: bool)
        ensures
            r <==> (*self is Retry),
    {
        match self {
            GameResult::Retry { .. } => true,
            _ => false,
        }
    }
}

/// A result carries a score exactly when it carries a level, and exactly when
/// the player did not simply quit.
pub proof fn lemma_result_score_iff_level(r: GameResult)
    ensures
        r.spec_score() is Some <==> r.spec_level() is Some,
        r.spec_score() is None <==> r is Quit,
{
}

/// What a key press does once a game has ended.
#[derive(Debug, Clone, Copy, PartialEq, Eq, Structural)]
pub enum EndKey {
    /// Play the same game again.
    Retry,
    /// Leave the game with its result.
    Leave,
    /// Keep showing the final screen.
    Stay,
}

/// On a final screen, Retry or Action asks for another round, Quit leaves,
/// and other keys do nothing.
pub open spec fn spec_end_key(key: Key) -> EndKey {
    match key {
        Key::Retry | Key::Action => EndKey::Retry,
        Key::Quit => EndKey::Leave,
        _ => EndKey::Stay,
    }
}

/// Decides what a key does on a final screen (Retry/Action retries, Quit leaves).
pub fn end_key(key: Key) -> (r: EndKey)
    ensures
        r == spec_end_key(key),
{
    match key {
        Key::Retry | Key::Action => EndKey::Retry,
        Key::Quit => EndKey::Leave,
        _ => EndKey::Stay,
    }
}

/// On a final screen where any key leaves: Retry asks for another round,
/// an unbound key does nothing, every other key leaves.
pub open spec fn spec_end_key_any(key: Key) -> EndKey {
    match key {
        Key::Retry => EndKey::Retry,
        Key::Unbound => EndKey::Stay,
        _ => EndKey::Leave,
    }
}

/// Decides what a key does on a final screen that any key leaves.
pub fn end_key_any(key: Key) -> (r: EndKey)
    ensures
        r == spec_end_key_any(key),
{
    match key {
        Key::Retry => EndKey::Retry,
        Key::Unbound => EndKey::Stay,
        _ => EndKey::Leave,
    }
}

/// The result a session reports: Retry once another round was asked for;
/// once the session has ended, game over when it was lost and complete when
/// it was won; nothing while it runs. All carry the score and level.
pub open spec fn spec_session_status(retry: bool, ended: bool, lost: bool, score: Score, level: Level) -> Option<GameResult> {
    if retry {
        Some(GameResult::Retry { score, level })
    } else if ended {
        if lost {
            Some(GameResult::GameOver { score, level })
        } else {
            Some(GameResult::Complete { score, level })
        }
    } else {
        None
    }
}

/// The result a session reports (see `spec_session_status`).
pub fn session_status(retry: bool, ended: bool, lost: bool, score: Score, level: Level) -> (r: Option<GameResult>)
    ensures
        r == spec_session_status(retry, ended, lost, score, level),
{
    if retry {
        Some(GameResult::Retry { score, level })
    } else if ended {
        if lost {
            Some(GameResult::GameOver { score, level })
        } else {
            Some(GameResult::Complete { score, level })
        }
    } else {
        None
    }
}

} // verus!
