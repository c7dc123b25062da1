//! The decision strategies and their shared contract: a name, and a
//! move choice that never proposes an illegal move.

use vstd::prelude::*;
use vstd::string::StrSliceExecFns;
use crate::board::{
    Quoridor, lemma_pawn_labels_len, spec_add_wall, spec_legal_moves, spec_legal_walls,
    spec_move_pawn,
};
use crate::model::GameModel;

pub mod adaptive;
pub mod balanced;
pub mod base;
pub mod defensive;
pub mod eval;
pub mod mcts;
pub mod minimax;
pub mod mirror;
pub mod random;
pub mod shortest_path;
pub mod simulated_annealing;

pub use adaptive::AdaptiveStrategy;
pub use balanced::BalancedStrategy;
pub use base::QuoridorStrategy;
pub use defensive::DefensiveStrategy;
pub use mcts::MCTSStrategy;
pub use minimax::MinimaxStrategy;
pub use mirror::MirrorStrategy;
pub use random::RandomStrategy;
pub use shortest_path::ShortestPathStrategy;
pub use simulated_annealing::SimulatedAnnealingStrategy;

verus! {

/// A chosen move is always one of the active player's legal pawn
/// moves or legal wall placements.
pub open spec fn move_is_legal(game: &Quoridor, s: Seq<char>) -> bool {
    spec_legal_moves(game@, game@.active).contains(s) || spec_legal_walls(
        game@,
        game@.active,
    ).contains(s)
}

/// The interface every decision engine offers: a display name, and a
/// move for the active player — `None` forfeits.  A strategy never
/// returns a move the board would reject.
pub trait Strategy {
    /// The strategy's display name.
    fn name(&self) -> String;

    /// Chooses the next move for the active player, or forfeits.  A
    /// strategy forfeits only when the player has no pawn move left.
    fn choose_move(&mut self, game: &Quoridor) -> (r: Option<String>)
        requires
            game.wf(),
        ensures
            r matches Some(s) ==> move_is_legal(game, s@),
            spec_legal_moves(game@, game@.active).len() > 0 ==> r is Some,
    ;
}

/// The active player's pawn moves followed by its wall placements.
pub fn all_legal_moves(game: &Quoridor) -> (r: Vec<String>)
    requires
        game.wf(),
    ensures
        r@.map_values(|s: String| s@) == spec_legal_moves(game@, game@.active) + spec_legal_walls(
            game@,
            game@.active,
        ),
{
    let mut a = game.get_legal_moves(game.active_player());
    let mut w = game.get_legal_walls(game.active_player());
    a.append(&mut w);
    proof {
        assert(a@.map_values(|s: String| s@) =~= spec_legal_moves(game@, game@.active)
            + spec_legal_walls(game@, game@.active));
    }
    a
}

/// The move list a search explores: pawn moves, then walls.
pub open spec fn spec_all_moves(m: GameModel) -> Seq<Seq<char>> {
    spec_legal_moves(m, m.active) + spec_legal_walls(m, m.active)
}

/// What applying a move string does during search (no re-validation):
/// wall labels have three characters, pawn labels two.
pub open spec fn spec_apply_search_move(m: GameModel, s: Seq<char>) -> (bool, GameModel) {
    if s.len() >= 3 {
        spec_add_wall(m, s, false, false)
    } else {
        spec_move_pawn(m, s, false)
    }
}

/// Applies a legal move to a copy of the game without re-validation,
/// as the searches do.
pub fn apply_search_move(game: &Quoridor, mv: &String) -> (r: (bool, Quoridor))
    requires
        game.wf(),
        spec_all_moves(game@).contains(mv@),
    ensures
        r.1.wf(),
        (r.0, r.1@) == spec_apply_search_move(game@, mv@),
{
    let mut next = game.clone_state();
    let n = mv.as_str().unicode_len();
    if n >= 3 {
        proof {
            lemma_pawn_labels_len(game@, game@.active);
            let all = spec_all_moves(game@);
            let i = choose|i: int| 0 <= i < all.len() && all[i] == mv@;
            let pl = spec_legal_moves(game@, game@.active);
            assert(i >= pl.len()) by {
                if i < pl.len() {
                    assert(all[i] == pl[i]);
                }
            }
            assert(spec_legal_walls(game@, game@.active).len() > 0);
            assert(game@.walls_of(game@.active) > 0);
        }
        let moved = next.add_wall(mv.as_str(), false, false);
        (moved, next)
    } else {
        let moved = next.move_pawn(mv.as_str(), false);
        (moved, next)
    }
}

/// An element of the combined move list is a legal move.
pub proof fn lemma_concat_elem_legal(game: &Quoridor, i: int)
    requires
        0 <= i < (spec_legal_moves(game@, game@.active) + spec_legal_walls(
            game@,
            game@.active,
        )).len(),
    ensures
        move_is_legal(
            game,
            (spec_legal_moves(game@, game@.active) + spec_legal_walls(game@, game@.active))[i],
        ),
{
    let a = spec_legal_moves(game@, game@.active);
    let b = spec_legal_walls(game@, game@.active);
    if i < a.len() {
        assert(a.contains((a + b)[i])) by {
            assert(a[i] == (a + b)[i]);
        }
    } else {
        assert(b.contains((a + b)[i])) by {
            assert(b[i - a.len()] == (a + b)[i]);
        }
    }
}

/// An element of the pawn move list is a legal move.
pub proof fn lemma_pawn_elem_legal(game: &Quoridor, i: int)
    requires
        0 <= i < spec_legal_moves(game@, game@.active).len(),
    ensures
        move_is_legal(game, spec_legal_moves(game@, game@.active)[i]),
{
    let a = spec_legal_moves(game@, game@.active);
    assert(a.contains(a[i]));
}

/// An element of the wall move list is a legal move.
pub proof fn lemma_wall_elem_legal(game: &Quoridor, i: int)
    requires
        0 <= i < spec_legal_walls(game@, game@.active).len(),
    ensures
        move_is_legal(game, spec_legal_walls(game@, game@.active)[i]),
{
    let b = spec_legal_walls(game@, game@.active);
    assert(b.contains(b[i]));
}

} // verus!
