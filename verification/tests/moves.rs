use connect_four::{Column, ConnectFour, Game, GameState, Player, Random};

#[test]
fn each_column_round_trips_through_text() {
    for c in 0..7u8 {
        let text = Column(c).to_text();
        assert_eq!(text, format!("{}", c));
        let parsed = Column::from_text(text).unwrap();
        assert_eq!(parsed, Column(c));
    }
}

#[test]
fn digits_parse_to_their_column() {
    assert_eq!(Column::from_text("0"), Ok(Column(0)));
    assert_eq!(Column::from_text("6"), Ok(Column(6)));
}

#[test]
fn other_text_fails_to_parse() {
    for bad in ["", "7", "8", "9", "a", "-1", "12", " 3", "3 ", "03", "x0", "\u{00e9}"] {
        assert!(Column::from_text(bad).is_err(), "accepted {:?}", bad);
    }
    assert_eq!(
        Column::from_text("q"),
        Err("Only digits from 0 to 6 count as valid moves.")
    );
}

#[test]
fn parse_works_through_the_standard_trait() {
    let c: Column = "4".parse().unwrap();
    assert_eq!(c, Column(4));
    assert!("44".parse::<Column>().is_err());
}

#[test]
fn current_player_reads_the_turn_and_defaults_to_zero() {
    assert_eq!(GameState::PlayerTurn(0).current_player(), 0);
    assert_eq!(GameState::PlayerTurn(1).current_player(), 1);
    assert_eq!(GameState::Draw.current_player(), 0);
    assert_eq!(GameState::VictoryPlayerOne.current_player(), 0);
    assert_eq!(GameState::VictoryPlayerTwo.current_player(), 0);
}

#[test]
fn evaluation_is_symmetric_and_zero_sum() {
    assert_eq!(GameState::VictoryPlayerOne.interpret_evaluation_for_player(0), 1);
    assert_eq!(GameState::VictoryPlayerOne.interpret_evaluation_for_player(1), -1);
    assert_eq!(GameState::VictoryPlayerTwo.interpret_evaluation_for_player(0), -1);
    assert_eq!(GameState::VictoryPlayerTwo.interpret_evaluation_for_player(1), 1);
    assert_eq!(GameState::Draw.interpret_evaluation_for_player(0), 0);
    assert_eq!(GameState::Draw.interpret_evaluation_for_player(1), 0);
    assert_eq!(GameState::PlayerTurn(0).interpret_evaluation_for_player(0), 0);
    assert_eq!(GameState::PlayerTurn(0).interpret_evaluation_for_player(1), 0);
}

#[test]
fn random_player_suggests_a_legal_move() {
    let g = ConnectFour::new();
    for _ in 0..20 {
        let m = Random.suggest(&g);
        assert!(m.0 < 7);
    }
}

#[test]
fn random_player_finds_the_single_open_column() {
    // Fill every column but column 5 to the top by playing moves.
    let mut g = ConnectFour::new();
    for c in [0u8, 1, 2, 3, 4, 6] {
        for _ in 0..3 {
            g.play_move(&Column(c));
            g.play_move(&Column(c));
        }
    }
    let open: Vec<u8> = g.legal_moves().iter().map(|m| m.0).collect();
    assert_eq!(open, vec![5]);
    for _ in 0..5 {
        assert_eq!(Random.suggest(&g), Column(5));
    }
}

#[test]
fn random_players_drive_a_game_to_completion() {
    let mut g = ConnectFour::new();
    let mut moves_played = 0usize;
    while let GameState::PlayerTurn(p) = g.state() {
        assert_eq!(p, moves_played % 2);
        let m = Random.suggest(&g);
        assert!(g.legal_moves().contains(&m));
        g.play_move(&m);
        moves_played += 1;
    }
    assert_eq!(g.turns, moves_played);
    assert!(g.turns <= 42);
}
