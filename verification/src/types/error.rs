use vstd::prelude::*;

verus! {

/// std's I/O error, carried by the error types as it came.
#[verifier::external_type_specification]
#[verifier::external_body]
pub struct ExIoError(std::io::Error);

/// Why a game session failed.
#[derive(Debug)]
pub enum GameError {
    /// Reading input or drawing on the terminal failed.
    Io(std::io::Error),
    /// The terminal is too small for the game.
    TerminalTooSmall,
}

/// Why the arcade failed.
#[derive(Debug)]
pub enum AppError {
    /// Terminal or file I/O failed.
    Io(std::io::Error),
    /// A game session failed.
    Game(GameError),
    /// The score database could not be opened, written or read.
    Database { reason: String },
}

} // verus!
