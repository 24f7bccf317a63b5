//! The end screen: shows the final score and ignores everything else.

use vstd::prelude::*;

verus! {

/// What there is to draw after a game.
pub struct GameContext {
    pub score: u64,
}

/// After a game: only the final score is kept.
pub struct GameSystem {
    score: u64,
}

impl View for GameSystem {
    type V = int;

    closed spec fn view(&self) -> int {
        self.score as int
    }
}

impl GameSystem {
    /// The end of a game that scored `score`.
    pub fn new(score: u64) -> (r: GameSystem)
        ensures
            r@ == score,
    {
        GameSystem { score }
    }

    /// The final score.
    pub fn context(&self) -> (r: GameContext)
        ensures
            r.score == self@,
    {
        GameContext { score: self.score }
    }
}

} // verus!
