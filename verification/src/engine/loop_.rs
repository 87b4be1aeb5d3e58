use vstd::prelude::*;

use crate::engine::input::Key;
use crate::types::game::GameResult;

verus! {

/// What the running game loop does with a key press.
#[derive(Debug, Clone, Copy, PartialEq, Eq, Structural)]
pub enum LoopAction {
    /// The key means nothing: carry on.
    Ignore,
    /// Pause until the next key.
    Pause,
    /// Hand the key to the game, then ask for its result.
    Forward,
}

/// Pause pauses, an unbound key is ignored, every other key goes to the game.
pub open spec fn spec_action_for_key(key: Key) -> LoopAction {
    match key {
        Key::Pause => LoopAction::Pause,
        Key::Unbound => LoopAction::Ignore,
        _ => LoopAction::Forward,
    }
}

/// Decides what the running loop does with a key press.
pub fn action_for_key(key: Key) -> (r: LoopAction)
    ensures
        r == spec_action_for_key(key),
{
    match key {
        Key::Pause => LoopAction::Pause,
        Key::Unbound => LoopAction::Ignore,
        _ => LoopAction::Forward,
    }
}

/// The outcome of a session after a key was handed to the game: Quit ends it
/// with the game's own result, or `Quit` when the game reports none; any
/// other key ends it only when the game reports a result.
pub open spec fn spec_result_after_key(key: Key, status: Option<GameResult>) -> Option<GameResult> {
    if key == Key::Quit {
        match status {
            Some(r) => Some(r),
            None => Some(GameResult::Quit),
        }
    } else {
        status
    }
}

/// Decides whether a session ends after a key was handed to the game.
pub fn result_after_key(key: Key, status: Option<GameResult>) -> (r: Option<GameResult>)
    ensures
        r == spec_result_after_key(key, status),
        key == Key::Quit ==> r is Some,
{
    if key == Key::Quit {
        match status {
            Some(r) => Some(r),
            None => Some(GameResult::Quit),
        }
    } else {
        status
    }
}

} // verus!
