use vstd::prelude::*;

verus! {

/// One recorded score: the game's key, the score and level reached, and when
/// it was played.
#[derive(Debug, Clone)]
pub struct ScoreEntry {
    pub game: String,
    pub score: u32,
    pub level: u8,
    pub played_at: String,
}

} // verus!
