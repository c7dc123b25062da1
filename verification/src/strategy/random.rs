//! The uniform-random strategy.

use vstd::prelude::*;
use crate::board::{Quoridor, spec_legal_moves};
use crate::randsrc::{rng_below, rng_from_seed};
use crate::strategy::base::QuoridorStrategy;
use crate::strategy::{all_legal_moves, lemma_concat_elem_legal, move_is_legal};

verus! {

/// Chooses uniformly among all legal pawn and wall moves.
pub struct RandomStrategy {
    /// The shared name and opening-book state.
    pub base: QuoridorStrategy,
    /// The random source.
    pub rng: rand::rngs::StdRng,
}

impl RandomStrategy {
    /// Creates the strategy with a seeded random source.
    pub fn new(opening_name: &str, opening_moves: Vec<String>, seed: u64) -> (r: RandomStrategy)
        ensures
            r.base.move_counter == 0,
    {
        RandomStrategy {
            base: QuoridorStrategy::new("Random", opening_name, opening_moves),
            rng: rng_from_seed(seed),
        }
    }

    /// The strategy's display name.
    pub fn strategy_name(&self) -> (r: String)
        ensures
            r == self.base.name,
    {
        self.base.name.clone()
    }

    /// Chooses a legal move uniformly at random; a scripted and legal
    /// opening move is played instead.
    pub fn decide(&mut self, game: &Quoridor) -> (r: Option<String>)
        requires
            game.wf(),
        ensures
            r matches Some(s) ==> move_is_legal(game, s@),
            spec_legal_moves(game@, game@.active).len() > 0 ==> r is Some,
    {
        if let Some(mv) = self.base.try_opening_move(game) {
            return Some(mv);
        }
        let all = all_legal_moves(game);
        if all.len() == 0 {
            proof {
                assert(all@.map_values(|s: String| s@).len() == 0);
            }
            return None;
        }
        let k = rng_below(&mut self.rng, all.len());
        proof {
            lemma_concat_elem_legal(game, k as int);
        }
        Some(all[k].clone())
    }
}

impl crate::strategy::Strategy for RandomStrategy {
    fn name(&self) -> String {
        self.strategy_name()
    }

    fn choose_move(&mut self, game: &Quoridor) -> (r: Option<String>) {
        self.decide(game)
    }
}

} // verus!
