//! The strategy abstraction: anything that can look at a running game and
//! suggest one of its legal moves.

use vstd::prelude::*;

use crate::game::Game;

verus! {

/// Indicates a player who can play a particular `Game`.
pub trait Player<G: Game> {
    /// Suggest a move to take: one that is legal in the given state. May
    /// only be consulted while at least one legal move exists, that is,
    /// before the game has ended.
    fn suggest(&self, game: &G) -> (r: G::Move)
        requires
            game.wf(),
            exists|m: G::Move| game.is_legal(m),
        ensures
            game.is_legal(r),
    ;
}

} // verus!
