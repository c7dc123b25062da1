//! Serialized-state tests: rendering, loading, and the round trip.

use quoridor_core::errors::GameError;
use quoridor_core::player::Player;
use quoridor_core::Quoridor;

#[test]
fn test_fresh_state_string() {
    let game = Quoridor::new(9, 10, None).unwrap();
    assert_eq!(game.state_string(), " /  / e1 e9 / 10 10 / 1");
    assert_eq!(game.last_move(), "None");
    assert_eq!(game.previous_state(), "");
}

#[test]
fn test_state_string_after_moves() {
    let mut game = Quoridor::new(9, 10, None).unwrap();
    assert!(game.add_wall("e8h", false, true));
    assert!(game.move_pawn("d9", true));
    assert!(game.state_string().starts_with("e8 /"));
    assert!(game.state_string().ends_with("/ 1"));
}

#[test]
fn test_state_round_trip() {
    let mut game = Quoridor::new(9, 10, None).unwrap();
    assert!(game.move_pawn("e2", true));
    assert!(game.add_wall("c6h", false, true));
    assert!(game.move_pawn("e3", true));
    assert!(game.add_wall("f3v", false, true));
    let rendered = game.state_string();
    let loaded = Quoridor::new(9, 10, Some(rendered.as_str())).unwrap();
    assert_eq!(loaded.state_string(), rendered);
    assert_eq!(loaded.pawn_position(Player::Player1), game.pawn_position(Player::Player1));
    assert_eq!(loaded.pawn_position(Player::Player2), game.pawn_position(Player::Player2));
    assert_eq!(loaded.hwall_positions(), game.hwall_positions());
    assert_eq!(loaded.vwall_positions(), game.vwall_positions());
    assert_eq!(loaded.active_player(), game.active_player());
    assert_eq!(
        loaded.walls_available(Player::Player1),
        game.walls_available(Player::Player1)
    );
    assert_eq!(
        loaded.walls_available(Player::Player2),
        game.walls_available(Player::Player2)
    );
}

#[test]
fn test_load_walls_and_counts() {
    let state = "e6c3 / b5 / e5 e6 / 7 9 / 2";
    let game = Quoridor::new(9, 10, Some(state)).unwrap();
    assert_eq!(game.pawn_position(Player::Player1), (4, 4));
    assert_eq!(game.pawn_position(Player::Player2), (3, 4));
    assert_eq!(game.walls_available(Player::Player1), 7);
    assert_eq!(game.walls_available(Player::Player2), 9);
    assert_eq!(game.active_player(), Player::Player2);
    assert!(game.hwall_positions().contains(&(3, 4)));
    assert!(game.hwall_positions().contains(&(6, 2)));
    assert!(game.vwall_positions().contains(&(4, 1)));
}

#[test]
fn test_load_rejects_bad_states() {
    assert!(matches!(Quoridor::new(9, 10, Some("no slashes at all")), Err(GameError::InvalidConfiguration)));
    assert!(matches!(Quoridor::new(9, 10, Some(" / / e5 / 10 10 / 1")), Err(GameError::InvalidConfiguration)));
    assert!(matches!(Quoridor::new(9, 10, Some(" / / e5 e6 / 10 10 / 3")), Err(GameError::InvalidConfiguration)));
    assert!(matches!(Quoridor::new(9, 10, Some(" / / zz e6 / 10 10 / 1")), Err(GameError::InvalidConfiguration)));
    assert!(matches!(Quoridor::new(9, 10, Some("a / b / c / d / e / f")), Err(GameError::InvalidConfiguration)));
}

#[test]
fn test_load_unparsable_wall_counts_fall_back() {
    let state = " / / e5 e6 / many 9 / 1";
    let game = Quoridor::new(9, 10, Some(state)).unwrap();
    assert_eq!(game.walls_available(Player::Player1), 10);
    assert_eq!(game.walls_available(Player::Player2), 9);
}
