//! Strategy tests: legality of chosen moves, the minimax determinism
//! guarantee, and the opening-book playback.

use quoridor_core::player::Player;
use quoridor_core::strategy::Strategy;
use quoridor_core::{
    get_opening_moves, AdaptiveStrategy, BalancedStrategy, DefensiveStrategy, MCTSStrategy,
    MinimaxStrategy, MirrorStrategy, Quoridor, QuoridorStrategy, RandomStrategy,
    ShortestPathStrategy, SimulatedAnnealingStrategy,
};

fn assert_move_is_legal(game: &Quoridor, mv: &str) {
    let pawns = game.get_legal_moves(game.active_player());
    let walls = game.get_legal_walls(game.active_player());
    assert!(
        pawns.iter().any(|s| s == mv) || walls.iter().any(|s| s == mv),
        "move {mv} is not legal"
    );
}

#[test]
fn test_random_strategy_returns_legal_move() {
    let game = Quoridor::new(9, 10, None).unwrap();
    let mut s = RandomStrategy::new("", Vec::new(), 7);
    for _ in 0..5 {
        let mv = s.choose_move(&game).unwrap();
        assert_move_is_legal(&game, mv.as_str());
    }
}

#[test]
fn test_shortest_path_races_forward() {
    let game = Quoridor::new(9, 10, None).unwrap();
    let mut s = ShortestPathStrategy::new("", Vec::new());
    assert_eq!(s.name(), "ShortestPath");
    let mv = s.choose_move(&game).unwrap();
    assert_eq!(mv, "e2");
}

#[test]
fn test_shortest_path_takes_the_win() {
    let game = Quoridor::new(9, 10, Some(" / / e8 a1 / 10 10 / 1")).unwrap();
    let mut s = ShortestPathStrategy::new("", Vec::new());
    assert_eq!(s.choose_move(&game).unwrap(), "e9");
}

#[test]
fn test_minimax_deterministic() {
    // The same position and depth always select the same move.
    let game = Quoridor::new(9, 10, None).unwrap();
    let mut a = MinimaxStrategy::new("", Vec::new(), 1);
    let mut b = MinimaxStrategy::new("", Vec::new(), 1);
    let first = a.choose_move(&game).unwrap();
    let second = b.choose_move(&game).unwrap();
    let third = a.choose_move(&game).unwrap();
    assert_eq!(first, second);
    assert_eq!(first, third);
    assert_move_is_legal(&game, first.as_str());
    assert_eq!(a.name(), "Minimax1");
}

#[test]
fn test_minimax_takes_the_win() {
    let game = Quoridor::new(9, 10, Some(" / / e8 a1 / 10 10 / 1")).unwrap();
    let mut s = MinimaxStrategy::new("", Vec::new(), 1);
    assert_eq!(s.choose_move(&game).unwrap(), "e9");
}

#[test]
fn test_defensive_and_balanced_return_legal_moves() {
    let game = Quoridor::new(9, 10, None).unwrap();
    let mut d = DefensiveStrategy::new("", Vec::new(), 100, 3);
    let mv = d.choose_move(&game).unwrap();
    assert_move_is_legal(&game, mv.as_str());
    assert_eq!(d.name(), "Defensive");

    let mut b = BalancedStrategy::new("", Vec::new(), 50, 4);
    let mv2 = b.choose_move(&game).unwrap();
    assert_move_is_legal(&game, mv2.as_str());
    assert_eq!(b.name(), "Balanced");
}

#[test]
fn test_adaptive_returns_legal_move() {
    let game = Quoridor::new(9, 10, None).unwrap();
    let mut a = AdaptiveStrategy::new("", Vec::new(), 5);
    let mv = a.choose_move(&game).unwrap();
    assert_move_is_legal(&game, mv.as_str());
    assert_eq!(a.name(), "Adaptive");
}

#[test]
fn test_mirror_returns_legal_move() {
    let mut game = Quoridor::new(9, 10, None).unwrap();
    assert!(game.move_pawn("e2", true));
    let mut m = MirrorStrategy::new("", Vec::new(), 6);
    let mv = m.choose_move(&game).unwrap();
    assert_move_is_legal(&game, mv.as_str());
    assert_eq!(m.name(), "Mirror");
}

#[test]
fn test_mcts_returns_legal_move() {
    // No walls in stock keeps the playouts on the fast racing branch.
    let game = Quoridor::new(9, 0, None).unwrap();
    let mut s = MCTSStrategy::new("", Vec::new(), 4, 11);
    assert_eq!(s.name(), "MCTS4");
    let mv = s.choose_move(&game).unwrap();
    assert_move_is_legal(&game, mv.as_str());
}

#[test]
fn test_mcts_iteration_cap_still_answers() {
    let game = Quoridor::new(5, 0, None).unwrap();
    let mut s = MCTSStrategy::new("", Vec::new(), 50, 12).with_time_limit(3);
    let mv = s.choose_move(&game).unwrap();
    assert_move_is_legal(&game, mv.as_str());
}

#[test]
fn test_annealing_returns_legal_move() {
    let game = Quoridor::new(5, 1, None).unwrap();
    let mut s = SimulatedAnnealingStrategy::new_with_limits("", Vec::new(), 2, 2, 13);
    assert_eq!(s.name(), "SimulatedAnnealing");
    let mv = s.choose_move(&game).unwrap();
    assert_move_is_legal(&game, mv.as_str());
}

#[test]
fn test_annealing_takes_the_win() {
    let game = Quoridor::new(9, 10, Some(" / / e8 a1 / 10 10 / 1")).unwrap();
    let mut s = SimulatedAnnealingStrategy::new_with_limits("", Vec::new(), 2, 2, 14);
    assert_eq!(s.choose_move(&game).unwrap(), "e9");
}

#[test]
fn test_opening_book_playback_and_skip() {
    // A legal scripted move is played and the counter advances; an
    // illegal one is skipped for good and play falls through.
    let game = Quoridor::new(9, 10, None).unwrap();
    let moves = vec!["e9".to_string(), "e2".to_string()];
    let mut base = QuoridorStrategy::new("Probe", "Custom Line", moves);
    assert_eq!(base.name, "Probe-Custom Line");
    // "e9" is not legal for the first player here: skipped, counter advances.
    assert_eq!(base.try_opening_move(&game), None);
    assert_eq!(base.move_counter, 1);
    // "e2" is legal: played.
    assert_eq!(base.try_opening_move(&game), Some("e2".to_string()));
    assert_eq!(base.move_counter, 2);
    // The book is exhausted.
    assert_eq!(base.try_opening_move(&game), None);
    assert_eq!(base.move_counter, 2);
    base.reset();
    assert_eq!(base.move_counter, 0);
}

#[test]
fn test_strategy_plays_scripted_opening() {
    let game = Quoridor::new(9, 10, None).unwrap();
    let moves = get_opening_moves("Standard Opening", Player::Player1);
    assert_eq!(moves, vec!["e2", "e3", "e4", "e3v"]);
    let mut s = ShortestPathStrategy::new("Standard Opening", moves);
    assert_eq!(s.name(), "ShortestPath-Standard Opening");
    assert_eq!(s.choose_move(&game).unwrap(), "e2");
}

#[test]
fn test_opening_book_lookup() {
    assert_eq!(
        get_opening_moves("Sidewall Opening", Player::Player2),
        vec!["c6h", "f6h"]
    );
    assert_eq!(
        get_opening_moves("Shatranj Opening", Player::Player1),
        vec!["d1v"]
    );
    assert!(get_opening_moves("Shatranj Opening", Player::Player2).is_empty());
    assert!(get_opening_moves("No Opening", Player::Player1).is_empty());
    assert!(get_opening_moves("Unknown", Player::Player2).is_empty());
}

#[test]
fn test_player_basics() {
    assert_eq!(Player::Player1.opponent(), Player::Player2);
    assert_eq!(Player::Player2.opponent(), Player::Player1);
    assert_eq!(Player::Player1.name(), "player1");
    assert_eq!(Player::Player2.name(), "player2");
    assert_eq!(Player::Player1.number(), 1);
    assert_eq!(Player::Player2.number(), 2);
}

#[test]
fn test_full_game_between_strategies() {
    // Two racing strategies on a small board reach a verdict quickly,
    // every move passing the checked board operations.
    let mut game = Quoridor::new(5, 0, None).unwrap();
    let mut s1 = ShortestPathStrategy::new("", Vec::new());
    let mut s2 = RandomStrategy::new("", Vec::new(), 21);
    let mut winner: Option<Player> = None;
    for _ in 0..60 {
        let active = game.active_player();
        let mv = match active {
            Player::Player1 => s1.choose_move(&game),
            Player::Player2 => s2.choose_move(&game),
        };
        let mv = mv.expect("a legal move must exist");
        if game.win_check(mv.as_str()) {
            winner = Some(active);
            break;
        }
        let applied = if mv.len() >= 3 {
            game.add_wall(mv.as_str(), false, true)
        } else {
            game.move_pawn(mv.as_str(), true)
        };
        assert!(applied, "strategies must only propose legal moves");
    }
    assert!(winner.is_some());
}
