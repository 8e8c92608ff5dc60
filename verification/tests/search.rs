use std::time::Duration;

use connect_four::{Bitboard, Column, ConnectFour, Game, GameState};
use mcts::tree_policy::UCTPolicy;
use mcts::{Evaluator, GameState as SearchState, MCTSManager, MoveList, SearchHandle, MCTS};

#[derive(Clone)]
struct State {
    game: ConnectFour,
}

impl SearchState for State {
    type Move = Column;
    type Player = usize;
    type MoveList = Vec<Column>;

    fn current_player(&self) -> usize {
        self.game.state().current_player()
    }

    fn available_moves(&self) -> Vec<Column> {
        self.game.legal_moves()
    }

    fn make_move(&mut self, mov: &Column) {
        self.game.play_move(mov)
    }
}

struct Spec;

impl MCTS for Spec {
    type State = State;
    type Eval = Heuristic;
    type NodeData = ();
    type ExtraThreadData = ();
    type TreePolicy = UCTPolicy;
    type TranspositionTable = ();
}

struct Heuristic;

impl Evaluator<Spec> for Heuristic {
    type StateEvaluation = GameState;

    fn evaluate_new_state(
        &self,
        state: &State,
        moves: &MoveList<Spec>,
        _handle: Option<SearchHandle<Spec>>,
    ) -> (Vec<()>, GameState) {
        (vec![(); moves.len()], state.game.state())
    }

    fn evaluate_existing_state(
        &self,
        _state: &State,
        evaln: &GameState,
        _handle: SearchHandle<Spec>,
    ) -> GameState {
        *evaln
    }

    fn interpret_evaluation_for_player(&self, evaln: &GameState, player: &usize) -> i64 {
        evaln.interpret_evaluation_for_player(*player)
    }
}

#[test]
fn search_takes_an_immediate_win() {
    // The first player, to move, completes a horizontal run by dropping a
    // stone into column 3.
    let mut first = Bitboard::new();
    for c in [0u8, 1, 2] {
        first.place_stone(0, c);
    }
    let mut second = Bitboard::new();
    for c in [4u8, 5, 6] {
        second.place_stone(0, c);
    }
    let game = ConnectFour {
        first,
        second,
        turns: 6,
    };
    assert_eq!(game.state(), GameState::PlayerTurn(0));

    let mut manager = MCTSManager::new(State { game }, Spec, Heuristic, UCTPolicy::new(0.5), ());
    manager.playout_parallel_for(Duration::from_millis(200), 4);
    let best = manager.best_move().expect("unable to find move in time");
    assert_eq!(best, Column(3));
}
