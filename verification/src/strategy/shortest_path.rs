//! The greedy racing strategy: always the pawn move that leaves the
//! shortest path to the goal; walls are never placed.

use vstd::prelude::*;
use crate::board::{Quoridor, spec_legal_moves, spec_move_pawn, spec_win_check};
use crate::model::{GameModel, spec_row_distance};
use crate::strategy::base::{QuoridorStrategy, spec_try_opening};
use crate::strategy::{lemma_pawn_elem_legal, move_is_legal};

verus! {

/// The greedy race folded over the pawn moves from index `i`: an
/// immediate win is taken at once; otherwise the first strict
/// improvement of the post-move goal distance is kept, carrying the
/// least distance seen so far; with no improvement at all the first
/// pawn move stands.
pub open spec fn spec_greedy_fold(
    m: GameModel,
    moves: Seq<Seq<char>>,
    i: int,
    mind: int,
    best: Option<Seq<char>>,
) -> Option<Seq<char>>
    decreases (if i < moves.len() { moves.len() - i } else { 0int }),
{
    if i < 0 || i >= moves.len() {
        match best {
            Some(b) => Some(b),
            None => if moves.len() > 0 {
                Some(moves[0])
            } else {
                None
            },
        }
    } else if spec_win_check(m, moves[i]) {
        Some(moves[i])
    } else {
        let step = spec_move_pawn(m, moves[i], false);
        if step.0 {
            let d = spec_row_distance(step.1.edges(), step.1.pawn(m.active), step.1.goal_row(m.active));
            if d < mind {
                spec_greedy_fold(m, moves, i + 1, d, Some(moves[i]))
            } else {
                spec_greedy_fold(m, moves, i + 1, mind, best)
            }
        } else {
            spec_greedy_fold(m, moves, i + 1, mind, best)
        }
    }
}

/// The greedy racing decision: the pawn move whose applied position
/// leaves the least goal distance, a winning move taken the moment it
/// is met; forfeit only without pawn moves.
pub open spec fn spec_greedy_choice(m: GameModel) -> Option<Seq<char>> {
    spec_greedy_fold(m, spec_legal_moves(m, m.active), 0, usize::MAX as int, None)
}

/// Chooses the legal pawn move that minimizes the mover's own
/// distance to its goal; forfeits when no pawn move exists.
pub struct ShortestPathStrategy {
    /// The shared name and opening-book state.
    pub base: QuoridorStrategy,
}

impl ShortestPathStrategy {
    /// Creates the strategy.
    pub fn new(opening_name: &str, opening_moves: Vec<String>) -> (r: ShortestPathStrategy)
        ensures
            r.base.move_counter == 0,
    {
        ShortestPathStrategy { base: QuoridorStrategy::new("ShortestPath", opening_name, opening_moves) }
    }

    /// The strategy's display name.
    pub fn strategy_name(&self) -> (r: String)
        ensures
            r == self.base.name,
    {
        self.base.name.clone()
    }

    /// Chooses the pawn move that leaves the least distance to the
    /// goal (an immediate win at once), exactly as `spec_greedy_choice`
    /// prescribes; when an opening move is scripted and legal it is
    /// played instead.
    #[verifier::rlimit(100)]
    pub fn decide(&mut self, game: &Quoridor) -> (r: Option<String>)
        requires
            game.wf(),
        ensures
            r matches Some(s) ==> move_is_legal(game, s@),
            spec_legal_moves(game@, game@.active).len() > 0 ==> r is Some,
            ({
                let sp = spec_try_opening(
                    game@,
                    old(self).base.opening_moves@.map_values(|s: String| s@),
                    old(self).base.move_counter,
                );
                &&& final(self).base.move_counter == sp.1
                &&& final(self).base.opening_moves == old(self).base.opening_moves
                &&& final(self).base.name == old(self).base.name
                &&& (match sp.0 {
                    Some(mv) => r matches Some(s) && s@ == mv,
                    None => (match r {
                        Some(s) => spec_greedy_choice(game@) == Some(s@),
                        None => spec_greedy_choice(game@) is None,
                    }),
                })
            }),
    {
        if let Some(mv) = self.base.try_opening_move(game) {
            return Some(mv);
        }
        let player = game.active_player();
        let legal_pawn_moves = game.get_legal_moves(player);
        let ghost pspec = spec_legal_moves(game@, game@.active);
        if legal_pawn_moves.len() == 0 {
            return None;
        }
        let mut best_move: Option<String> = None;
        let mut min_distance: usize = usize::MAX;
        let mut i: usize = 0;
        #[verifier::loop_isolation(false)]
        while i < legal_pawn_moves.len()
            invariant
                i <= legal_pawn_moves@.len(),
                best_move matches Some(s) ==> move_is_legal(game, s@),
                spec_greedy_fold(game@, pspec, 0, usize::MAX as int, None) == spec_greedy_fold(
                    game@,
                    pspec,
                    i as int,
                    min_distance as int,
                    match best_move {
                        Some(s) => Some(s@),
                        None => None,
                    },
                ),
            decreases legal_pawn_moves@.len() - i,
        {
            let mv = &legal_pawn_moves[i];
            proof {
                lemma_pawn_elem_legal(game, i as int);
                assert(pspec[i as int] == mv@);
            }
            if game.win_check(mv.as_str()) {
                return Some(mv.clone());
            }
            let mut temp = game.clone_state();
            if temp.move_pawn(mv.as_str(), false) {
                let d = temp.distance_to_goal(player);
                if d < min_distance {
                    min_distance = d;
                    best_move = Some(mv.clone());
                }
            }
            i += 1;
        }
        if best_move.is_none() {
            proof {
                lemma_pawn_elem_legal(game, 0);
                assert(pspec[0] == legal_pawn_moves@[0]@);
            }
            best_move = Some(legal_pawn_moves[0].clone());
        }
        best_move
    }
}

impl crate::strategy::Strategy for ShortestPathStrategy {
    fn name(&self) -> String {
        self.strategy_name()
    }

    fn choose_move(&mut self, game: &Quoridor) -> (r: Option<String>) {
        self.decide(game)
    }
}

} // verus!
