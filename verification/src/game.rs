//! The generic two-player game abstraction: a status type and a capability
//! contract that any conforming game implements, so that any strategy can
//! drive any game without knowing its rules.

use vstd::prelude::*;

verus! {

/// The status of a game, recomputed from the board on demand.
#[derive(Clone, Copy, PartialEq, Eq, Structural, Debug)]
pub enum GameState {
    /// The game is not yet finished. The index indicates whose turn it is,
    /// counting from `0`.
    PlayerTurn(usize),
    /// The game has finished with a draw.
    Draw,
    /// The first player won.
    VictoryPlayerOne,
    /// The second player won.
    VictoryPlayerTwo,
}

impl GameState {
    /// The index reported as the active player: the turn's player while the
    /// game runs, and a defensive `0` once it has concluded.
    pub open spec fn spec_current_player(self) -> usize {
        match self {
            GameState::PlayerTurn(p) => p,
            _ => 0usize,
        }
    }

    /// The scalar outcome for the player with the given index: `+1` for its
    /// victory, `-1` for its defeat, `0` for a draw or an unresolved state.
    pub open spec fn spec_evaluation_for_player(self, player: usize) -> i64 {
        match self {
            GameState::VictoryPlayerOne => if player == 0 {
                1i64
            } else if player == 1 {
                -1i64
            } else {
                0i64
            },
            GameState::VictoryPlayerTwo => if player == 0 {
                -1i64
            } else if player == 1 {
                1i64
            } else {
                0i64
            },
            _ => 0i64,
        }
    }

    /// The active player's index, with `0` as the defensive fallback for a
    /// concluded game.
    pub fn current_player(&self) -> (r: usize)
        ensures
            r == self.spec_current_player(),
    {
        match *self {
            GameState::PlayerTurn(p) => p,
            _ => 0,
        }
    }

    /// Map this status to a zero-sum score from one player's point of view.
    pub fn interpret_evaluation_for_player(&self, player: usize) -> (r: i64)
        ensures
            r == self.spec_evaluation_for_player(player),
    {
        match (*self, player) {
            (GameState::VictoryPlayerOne, 0) => 1,
            (GameState::VictoryPlayerOne, 1) => -1,
            (GameState::VictoryPlayerTwo, 0) => -1,
            (GameState::VictoryPlayerTwo, 1) => 1,
            _ => 0,
        }
    }
}

/// A zero-sum two-player game, described by the capability set that a search
/// strategy needs: enumerate the legal moves, apply a move, report status.
///
/// Each implementor supplies, as spec functions, its notion of a well-formed
/// state, of a legal move, and the exact meaning of the three operations;
/// generic code relies on the clauses below, and concrete callers see the
/// implementor's open definitions.
pub trait Game: Sized {
    type Move;

    /// The state is reachable by legal play: its internal invariants hold.
    spec fn wf(&self) -> bool;

    /// `m` may be played in this state.
    spec fn is_legal(&self, m: Self::Move) -> bool;

    /// What `legal_moves` returns, beyond the legality of each entry.
    spec fn moves_post(&self, r: Seq<Self::Move>) -> bool;

    /// How the state after `play_move` relates to the one before.
    spec fn play_post(&self, m: Self::Move, post: Self) -> bool;

    /// What `state` reports.
    spec fn state_post(&self, s: GameState) -> bool;

    /// Every legal move of the current state, materialized eagerly.
    fn legal_moves(&self) -> (r: Vec<Self::Move>)
        requires
            self.wf(),
        ensures
            self.moves_post(r@),
            forall|j: int| 0 <= j < r@.len() ==> self.is_legal(#[trigger] r@[j]),
            (exists|m: Self::Move| self.is_legal(m)) ==> r@.len() > 0,
    ;

    /// The status of the game.
    fn state(&self) -> (s: GameState)
        requires
            self.wf(),
        ensures
            self.state_post(s),
    ;

    /// Play a legal move.
    fn play_move(&mut self, mov: &Self::Move)
        requires
            old(self).wf(),
            old(self).is_legal(*mov),
        ensures
            final(self).wf(),
            old(self).play_post(*mov, *final(self)),
    ;
}

} // verus!
