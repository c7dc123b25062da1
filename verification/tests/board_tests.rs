//! Board rule tests: construction, moves, walls, distances, wins.

use quoridor_core::errors::GameError;
use quoridor_core::player::Player;
use quoridor_core::Quoridor;

#[test]
fn test_new_game() {
    let game = Quoridor::new(9, 10, None).unwrap();
    assert_eq!(game.size(), 9);
    assert_eq!(game.walls(), 10);
    assert_eq!(game.pawn_position(Player::Player1), (8, 4));
    assert_eq!(game.pawn_position(Player::Player2), (0, 4));
    assert_eq!(game.walls_available(Player::Player1), 10);
    assert_eq!(game.active_player(), Player::Player1);
    assert!(game.state_string().ends_with("/ 1"));
}

#[test]
fn test_invalid_sizes_rejected() {
    assert!(matches!(Quoridor::new(2, 10, None), Err(GameError::InvalidConfiguration)));
    assert!(matches!(Quoridor::new(4, 10, None), Err(GameError::InvalidConfiguration)));
    assert!(matches!(Quoridor::new(1, 10, None), Err(GameError::InvalidConfiguration)));
    assert!(matches!(Quoridor::new(11, 10, None), Err(GameError::InvalidConfiguration)));
}

#[test]
fn test_pawn_move() {
    let mut game = Quoridor::new(9, 10, None).unwrap();
    assert_eq!(game.active_player(), Player::Player1);
    assert!(game.move_pawn("e2", true));
    assert_eq!(game.pawn_position(Player::Player1), (7, 4));
    assert_eq!(game.active_player(), Player::Player2);
    assert!(game.state_string().contains("e2 e9"));
    assert!(game.state_string().ends_with("/ 2"));
    assert_eq!(game.last_move(), "e2");

    assert!(game.move_pawn("e8", true));
    assert_eq!(game.pawn_position(Player::Player2), (1, 4));
    assert_eq!(game.active_player(), Player::Player1);
    assert!(game.state_string().contains("e2 e8"));
    assert!(game.state_string().ends_with("/ 1"));
    assert_eq!(game.last_move(), "e8");
}

#[test]
fn test_illegal_pawn_move() {
    let mut game = Quoridor::new(9, 10, None).unwrap();
    assert!(!game.move_pawn("e3", true));
    assert_eq!(game.pawn_position(Player::Player1), (8, 4));
    assert_eq!(game.active_player(), Player::Player1);
}

#[test]
fn test_add_wall() {
    let mut game = Quoridor::new(9, 10, None).unwrap();
    assert_eq!(game.walls_available(Player::Player1), 10);
    assert!(game.add_wall("e8h", false, true));
    assert_eq!(game.walls_available(Player::Player1), 9);
    assert!(game.hwall_positions().contains(&(1, 4)));
    assert_eq!(game.active_player(), Player::Player2);
    assert!(game.state_string().starts_with("e8 /"));
    assert!(game.state_string().ends_with("/ 2"));
    assert_eq!(game.last_move(), "e8h");

    // The wall blocks both vertical steps it spans: the second player
    // on e9 can no longer step down to e8 or f8.
    let p2_moves = game.get_legal_moves(Player::Player2);
    assert!(!p2_moves.contains(&"e8".to_string()));

    assert!(game.add_wall("a1v", false, true));
    assert_eq!(game.walls_available(Player::Player2), 9);
    assert!(game.vwall_positions().contains(&(8, 0)));
    assert_eq!(game.active_player(), Player::Player1);
}

#[test]
fn test_wall_intersection() {
    let mut game = Quoridor::new(9, 10, None).unwrap();
    assert!(game.add_wall("e5h", false, true));
    assert_eq!(game.active_player(), Player::Player2);
    assert!(!game.add_wall("e5v", false, true));
    assert_eq!(game.walls_available(Player::Player2), 10);
    assert_eq!(game.active_player(), Player::Player2);
}

#[test]
fn test_wall_overlap() {
    let mut game = Quoridor::new(9, 10, None).unwrap();
    assert!(game.add_wall("e5h", false, true));
    assert_eq!(game.active_player(), Player::Player2);
    assert!(!game.add_wall("e5h", false, true));
    assert!(!game.add_wall("d5h", false, true));
    assert!(!game.add_wall("f5h", false, true));
    assert_eq!(game.walls_available(Player::Player2), 10);
    assert_eq!(game.active_player(), Player::Player2);
}

#[test]
fn test_distance_goal() {
    let game = Quoridor::new(9, 10, None).unwrap();
    assert_eq!(game.distance_to_goal(Player::Player1), 8);
    assert_eq!(game.distance_to_goal(Player::Player2), 8);

    let mut game_walled = Quoridor::new(9, 10, None).unwrap();
    game_walled.add_wall("e2h", false, true);
    assert!(game_walled.distance_to_goal(Player::Player1) > 8);
    assert!(game_walled.distance_to_goal(Player::Player2) > 8);
}

#[test]
fn test_accepted_walls_keep_paths() {
    // The connectivity invariant: after every accepted placement both
    // players' goal distances stay below the unreachable sentinel.
    let mut game = Quoridor::new(9, 10, None).unwrap();
    for mv in ["e8h", "c8h", "a8h", "g8h", "h8v", "e2h", "a2h", "c2h"] {
        if game.add_wall(mv, false, true) {
            assert!(game.distance_to_goal(Player::Player1) < 100);
            assert!(game.distance_to_goal(Player::Player2) < 100);
        }
    }
}

#[test]
fn test_wall_that_would_trap_is_rejected() {
    // The second player sits in a pocket on its back row whose only
    // exit runs right; sealing that exit must fail the connectivity
    // check, while an unrelated wall is still accepted.
    let state = "d8f8 / c8 / e1 e9 / 8 9 / 1";
    let mut game = Quoridor::new(9, 10, Some(state)).unwrap();
    assert!(!game.add_wall("g8v", false, true));
    assert_eq!(game.walls_available(Player::Player1), 8);
    assert!(game.add_wall("b5h", false, true));
    assert!(game.distance_to_goal(Player::Player1) < 100);
    assert!(game.distance_to_goal(Player::Player2) < 100);
}

#[test]
fn test_checked_wall_rejects_top_row_anchor() {
    // A vertical anchor on the top row has no room for its two-cell
    // span: checked placement refuses it, like the enumeration.
    let mut game = Quoridor::new(9, 10, None).unwrap();
    assert!(!game.add_wall("e9v", false, true));
    assert!(!game.add_wall("a9h", false, true));
    assert_eq!(game.walls_available(Player::Player1), 10);
    assert_eq!(game.active_player(), Player::Player1);
    // Loading a serialized state still carries such walls through the
    // unchecked path.
    let loaded = Quoridor::new(9, 10, Some(" / e9 / e1 d9 / 10 10 / 1")).unwrap();
    assert!(loaded.vwall_positions().contains(&(0, 4)));
}

#[test]
fn test_win_check() {
    let game = Quoridor::new(9, 10, Some(" / / e8 e2 / 10 10 / 1")).unwrap();
    assert!(game.win_check("e9"));
    assert!(!game.win_check("e9h"));
    assert!(!game.win_check("d8"));

    let game2 = Quoridor::new(9, 10, Some(" / / e8 e2 / 10 10 / 2")).unwrap();
    assert!(game2.win_check("e1"));
    assert!(!game2.win_check("e9"));
}

#[test]
fn test_legal_moves_simple() {
    let game = Quoridor::new(9, 10, None).unwrap();
    let p1_moves = game.get_legal_moves(Player::Player1);
    assert_eq!(p1_moves.len(), 3);
    assert!(p1_moves.contains(&"d1".to_string()));
    assert!(p1_moves.contains(&"e2".to_string()));
    assert!(p1_moves.contains(&"f1".to_string()));

    let p2_moves = game.get_legal_moves(Player::Player2);
    assert_eq!(p2_moves.len(), 3);
    assert!(p2_moves.contains(&"d9".to_string()));
    assert!(p2_moves.contains(&"e8".to_string()));
    assert!(p2_moves.contains(&"f9".to_string()));
}

#[test]
fn test_legal_moves_jump() {
    let state = " / / e5 e6 / 10 10 / 1";
    let game = Quoridor::new(9, 10, Some(state)).unwrap();
    let p1_moves = game.get_legal_moves(Player::Player1);
    assert_eq!(p1_moves.len(), 4);
    assert!(p1_moves.contains(&"d5".to_string()));
    assert!(p1_moves.contains(&"f5".to_string()));
    assert!(p1_moves.contains(&"e4".to_string()));
    assert!(p1_moves.contains(&"e7".to_string()));
    assert!(!p1_moves.contains(&"d6".to_string()));
    assert!(!p1_moves.contains(&"f6".to_string()));
}

#[test]
fn test_legal_moves_jump_blocked() {
    let state = "e6 / / e5 e6 / 10 9 / 1";
    let game = Quoridor::new(9, 10, Some(state)).unwrap();
    let p1_moves = game.get_legal_moves(Player::Player1);
    assert_eq!(p1_moves.len(), 5);
    assert!(p1_moves.contains(&"d6".to_string()));
    assert!(p1_moves.contains(&"f6".to_string()));
    assert!(p1_moves.contains(&"d5".to_string()));
    assert!(p1_moves.contains(&"f5".to_string()));
    assert!(p1_moves.contains(&"e4".to_string()));
    assert!(!p1_moves.contains(&"e7".to_string()));
}

#[test]
fn test_legal_walls_respect_stock() {
    let game = Quoridor::new(9, 0, None).unwrap();
    assert!(game.get_legal_walls(Player::Player1).is_empty());

    let game2 = Quoridor::new(9, 10, None).unwrap();
    let walls = game2.get_legal_walls(Player::Player1);
    // Every anchor row 1..=8 and column a..=h, both orientations.
    assert_eq!(walls.len(), 128);
    assert!(walls.contains(&"a1h".to_string()));
    assert!(walls.contains(&"h8v".to_string()));
    assert!(!walls.contains(&"i1h".to_string()));
    assert!(!walls.contains(&"a9h".to_string()));
}

#[test]
fn test_unchecked_pawn_move_teleports() {
    let mut game = Quoridor::new(9, 10, None).unwrap();
    assert!(game.move_pawn("e5", false));
    assert_eq!(game.pawn_position(Player::Player1), (4, 4));
    assert!(!game.move_pawn("zz", false));
}

#[test]
fn test_previous_state_tracks_history() {
    let mut game = Quoridor::new(9, 10, None).unwrap();
    let before = game.state_string();
    assert!(game.move_pawn("e2", true));
    assert_eq!(game.previous_state(), before);
}

#[test]
fn test_clone_state_is_faithful() {
    let mut game = Quoridor::new(9, 10, None).unwrap();
    assert!(game.add_wall("e5h", false, true));
    let copy = game.clone_state();
    assert_eq!(copy.state_string(), game.state_string());
    assert_eq!(copy.hwall_positions(), game.hwall_positions());
    let mut copy2 = game.clone_state();
    assert!(copy2.move_pawn("e8", true));
    // The original is untouched by moves on the copy.
    assert_eq!(game.active_player(), Player::Player2);
    assert_eq!(copy2.active_player(), Player::Player1);
}
