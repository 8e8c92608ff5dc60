use connect_four::{Bitboard, Column, ConnectFour, Field, Game, GameState};

fn board_from(p0: &[(u8, u8)], p1: &[(u8, u8)]) -> ConnectFour {
    let mut first = Bitboard::new();
    for &(r, c) in p0 {
        first.place_stone(r, c);
    }
    let mut second = Bitboard::new();
    for &(r, c) in p1 {
        second.place_stone(r, c);
    }
    ConnectFour {
        first,
        second,
        turns: p0.len() + p1.len(),
    }
}

#[test]
fn new_board_is_empty_and_running() {
    let g = ConnectFour::new();
    assert_eq!(g.turns, 0);
    for r in 0..6 {
        for c in 0..7 {
            assert_eq!(g.field(r, c), Field::Empty);
        }
    }
    assert_eq!(g.state(), GameState::PlayerTurn(0));
}

#[test]
fn turns_count_moves_and_players_alternate() {
    let mut g = ConnectFour::new();
    let moves = [3u8, 3, 2, 4, 6, 0, 1];
    for (n, &c) in moves.iter().enumerate() {
        assert_eq!(g.state(), GameState::PlayerTurn(n % 2));
        g.play_move(&Column(c));
        assert_eq!(g.turns, n + 1);
    }
}

#[test]
fn stones_land_on_lowest_empty_row() {
    let mut g = ConnectFour::new();
    g.play_move(&Column(3));
    assert_eq!(g.field(0, 3), Field::PlayerOne);
    g.play_move(&Column(3));
    assert_eq!(g.field(1, 3), Field::PlayerTwo);
    g.play_move(&Column(3));
    assert_eq!(g.field(2, 3), Field::PlayerOne);
    assert_eq!(g.field(3, 3), Field::Empty);
}

#[test]
fn empty_cells_are_unset_in_both_bitboards() {
    let mut g = ConnectFour::new();
    g.play_move(&Column(0));
    g.play_move(&Column(1));
    for r in 0..6 {
        for c in 0..7 {
            let empty = g.field(r, c) == Field::Empty;
            assert_eq!(empty, g.first.is_empty(r, c) && g.second.is_empty(r, c));
            assert!(g.first.is_empty(r, c) || g.second.is_empty(r, c));
        }
    }
}

#[test]
fn horizontal_run_wins_for_first_player() {
    let g = board_from(
        &[(0, 0), (0, 1), (0, 2), (0, 3)],
        &[(1, 0), (1, 1), (1, 2)],
    );
    assert!(g.first.is_win());
    assert_eq!(g.state(), GameState::VictoryPlayerOne);
}

#[test]
fn vertical_run_wins_for_first_player() {
    let g = board_from(
        &[(0, 3), (1, 3), (2, 3), (3, 3)],
        &[(0, 0), (0, 1), (0, 2)],
    );
    assert!(g.first.is_win());
    assert_eq!(g.state(), GameState::VictoryPlayerOne);
}

#[test]
fn diagonal_run_wins_for_first_player() {
    let g = board_from(
        &[(0, 0), (1, 1), (2, 2), (3, 3)],
        &[(0, 1), (0, 2), (0, 3)],
    );
    assert!(g.first.is_win());
    assert_eq!(g.state(), GameState::VictoryPlayerOne);
}

#[test]
fn down_diagonal_run_wins_for_second_player() {
    let g = board_from(
        &[(0, 0), (0, 1), (0, 2), (1, 3)],
        &[(3, 0), (2, 1), (1, 2), (0, 3)],
    );
    assert!(!g.first.is_win());
    assert!(g.second.is_win());
    assert_eq!(g.state(), GameState::VictoryPlayerTwo);
}

#[test]
fn three_in_a_row_is_no_win() {
    let g = board_from(&[(0, 0), (0, 1), (0, 2)], &[(1, 0), (1, 1), (1, 2)]);
    assert!(!g.first.is_win());
    assert!(!g.second.is_win());
}

#[test]
fn runs_do_not_wrap_between_columns() {
    // Stones at the top of one column and the bottom of the next are
    // adjacent in the raw bit layout but must not count as a run.
    let g = board_from(
        &[(3, 1), (4, 1), (5, 1), (0, 2), (1, 2)],
        &[(0, 1), (1, 1), (2, 1), (2, 2), (3, 2)],
    );
    assert!(!g.first.is_win());
    assert!(!g.second.is_win());
}

#[test]
fn full_board_without_run_is_a_draw() {
    let p0 = [
        (0, 0),
        (0, 1),
        (0, 3),
        (0, 5),
        (1, 0),
        (1, 1),
        (1, 3),
        (2, 2),
        (2, 4),
        (2, 6),
        (3, 2),
        (3, 4),
        (3, 5),
        (3, 6),
        (4, 0),
        (4, 1),
        (4, 3),
        (4, 5),
        (5, 0),
        (5, 1),
        (5, 3),
    ];
    let p1 = [
        (0, 2),
        (0, 4),
        (0, 6),
        (1, 2),
        (1, 4),
        (1, 5),
        (1, 6),
        (2, 0),
        (2, 1),
        (2, 3),
        (2, 5),
        (3, 0),
        (3, 1),
        (3, 3),
        (4, 2),
        (4, 4),
        (4, 6),
        (5, 2),
        (5, 4),
        (5, 5),
        (5, 6),
    ];
    let g = board_from(&p0, &p1);
    assert_eq!(g.turns, 42);
    assert_eq!(g.state(), GameState::Draw);
    assert!(g.legal_moves().is_empty());
}

#[test]
fn legal_moves_of_empty_board_are_all_columns_ascending() {
    let g = ConnectFour::new();
    let moves: Vec<u8> = g.legal_moves().iter().map(|m| m.0).collect();
    assert_eq!(moves, vec![0, 1, 2, 3, 4, 5, 6]);
}

#[test]
fn full_column_is_excluded_from_legal_moves() {
    // Fill column 2 to the top, alternating owners.
    let g = board_from(&[(0, 2), (2, 2), (4, 2)], &[(1, 2), (3, 2), (5, 2)]);
    let moves: Vec<u8> = g.legal_moves().iter().map(|m| m.0).collect();
    assert_eq!(moves, vec![0, 1, 3, 4, 5, 6]);
    assert_eq!(g.field(5, 2), Field::PlayerTwo);
}
