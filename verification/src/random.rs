//! A strategy that plays any game by performing random moves.

use vstd::prelude::*;

use crate::game::Game;
use crate::player::Player;

verus! {

/// An implementation of `Player` which can play any `Game` by selecting one
/// of the legal moves uniformly at random.
pub struct Random;

/// Relies on rand::random_range over `0..n`: the index drawn by the
/// thread-local generator lies within the range.
#[verifier::external_body]
fn pick_index(n: usize) -> (r: usize)
    requires
        n > 0,
    ensures
        r < n,
{
    rand::random_range(0..n)
}

impl<G: Game> Player<G> for Random {
    /// Collect all legal moves and return one chosen uniformly at random.
    fn suggest(&self, game: &G) -> (r: G::Move) {
        let mut available = game.legal_moves();
        let i = pick_index(available.len());
        available.remove(i)
    }
}

} // verus!
