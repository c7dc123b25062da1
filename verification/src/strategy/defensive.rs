//! The blocking strategy: with some preference it places the wall
//! that lengthens the opponent's path the most, else races.

use vstd::prelude::*;
use crate::board::{Quoridor, spec_legal_moves};
use crate::randsrc::{rng_below, rng_from_seed};
use crate::strategy::base::QuoridorStrategy;
use crate::strategy::shortest_path::ShortestPathStrategy;
use crate::strategy::{lemma_wall_elem_legal, move_is_legal};

verus! {

/// Prefers hindering walls with a given probability, else moves the
/// pawn along the shortest path.
pub struct DefensiveStrategy {
    /// The shared name and opening-book state.
    pub base: QuoridorStrategy,
    /// Percent chance of looking for a blocking wall first.
    pub wall_preference_percent: u8,
    /// The racing fallback.
    pub offensive_strategy: ShortestPathStrategy,
    /// The random source.
    pub rng: rand::rngs::StdRng,
}

impl DefensiveStrategy {
    /// Creates the strategy; `wall_preference_percent` is the chance
    /// (0 to 100) of trying a wall first.
    pub fn new(
        opening_name: &str,
        opening_moves: Vec<String>,
        wall_preference_percent: u8,
        seed: u64,
    ) -> (r: DefensiveStrategy)
        ensures
            r.base.move_counter == 0,
    {
        DefensiveStrategy {
            base: QuoridorStrategy::new("Defensive", opening_name, opening_moves),
            wall_preference_percent,
            offensive_strategy: ShortestPathStrategy::new("", Vec::new()),
            rng: rng_from_seed(seed),
        }
    }

    /// The strategy's display name.
    pub fn strategy_name(&self) -> (r: String)
        ensures
            r == self.base.name,
    {
        self.base.name.clone()
    }

    /// With the configured preference, places the legal wall that
    /// increases the opponent's goal distance the most; otherwise (or
    /// when no wall hinders) races along the shortest path.
    pub fn decide(&mut self, game: &Quoridor) -> (r: Option<String>)
        requires
            game.wf(),
        ensures
            r matches Some(s) ==> move_is_legal(game, s@),
            spec_legal_moves(game@, game@.active).len() > 0 ==> r is Some,
    {
        if let Some(mv) = self.base.try_opening_move(game) {
            return Some(mv);
        }
        let player = game.active_player();
        let opponent = player.opponent();
        let legal_wall_moves = game.get_legal_walls(player);
        let draw = rng_below(&mut self.rng, 100);
        if legal_wall_moves.len() > 0 && draw < self.wall_preference_percent as usize {
            let current_opponent_distance = game.distance_to_goal(opponent);
            let mut best_blocking_wall: Option<String> = None;
            let mut max_distance_increase: usize = 0;
            let mut i: usize = 0;
            #[verifier::loop_isolation(false)]
            while i < legal_wall_moves.len()
                invariant
                    i <= legal_wall_moves@.len(),
                    best_blocking_wall matches Some(s) ==> move_is_legal(game, s@),
                decreases legal_wall_moves@.len() - i,
            {
                let mv = &legal_wall_moves[i];
                proof {
                    lemma_wall_elem_legal(game, i as int);
                }
                let mut temp = game.clone_state();
                proof {
                    assert(game@.walls_of(game@.active) > 0) by {
                        assert(legal_wall_moves@.map_values(|s: String| s@).len() > 0);
                    }
                }
                if temp.add_wall(mv.as_str(), false, false) {
                    let new_d = temp.distance_to_goal(opponent);
                    if new_d > current_opponent_distance {
                        let increase = new_d - current_opponent_distance;
                        if increase > max_distance_increase {
                            max_distance_increase = increase;
                            best_blocking_wall = Some(mv.clone());
                        }
                    }
                }
                i += 1;
            }
            if best_blocking_wall.is_some() {
                return best_blocking_wall;
            }
        }
        self.offensive_strategy.decide(game)
    }
}

impl crate::strategy::Strategy for DefensiveStrategy {
    fn name(&self) -> String {
        self.strategy_name()
    }

    fn choose_move(&mut self, game: &Quoridor) -> (r: Option<String>) {
        self.decide(game)
    }
}

} // verus!
