//! The blended strategy: defensive play with a configured weight,
//! offensive racing otherwise.

use vstd::prelude::*;
use crate::board::{Quoridor, spec_legal_moves};
use crate::randsrc::{rng_below, rng_from_seed};
use crate::strategy::base::QuoridorStrategy;
use crate::strategy::defensive::DefensiveStrategy;
use crate::strategy::shortest_path::ShortestPathStrategy;
use crate::strategy::move_is_legal;

verus! {

/// Mixes wall-blocking and racing according to a defense weight.
pub struct BalancedStrategy {
    /// The shared name and opening-book state.
    pub base: QuoridorStrategy,
    /// Percent chance of playing defensively.
    pub defense_weight_percent: u8,
    /// The defensive half.
    pub defensive_strategy: DefensiveStrategy,
    /// The offensive half.
    pub offensive_strategy: ShortestPathStrategy,
    /// The random source.
    pub rng: rand::rngs::StdRng,
}

impl BalancedStrategy {
    /// Creates the strategy; `defense_weight_percent` is the chance
    /// (0 to 100) of playing defensively.
    pub fn new(
        opening_name: &str,
        opening_moves: Vec<String>,
        defense_weight_percent: u8,
        seed: u64,
    ) -> (r: BalancedStrategy)
        ensures
            r.base.move_counter == 0,
    {
        BalancedStrategy {
            base: QuoridorStrategy::new("Balanced", opening_name, opening_moves),
            defense_weight_percent,
            defensive_strategy: DefensiveStrategy::new("", Vec::new(), 100, seed),
            offensive_strategy: ShortestPathStrategy::new("", Vec::new()),
            rng: rng_from_seed(seed),
        }
    }

    /// The strategy's display name.
    pub fn strategy_name(&self) -> (r: String)
        ensures
            r == self.base.name,
    {
        self.base.name.clone()
    }

    /// With the configured weight (and walls in stock) plays the
    /// defensive strategy, else races.
    pub fn decide(&mut self, game: &Quoridor) -> (r: Option<String>)
        requires
            game.wf(),
        ensures
            r matches Some(s) ==> move_is_legal(game, s@),
            spec_legal_moves(game@, game@.active).len() > 0 ==> r is Some,
    {
        if let Some(mv) = self.base.try_opening_move(game) {
            return Some(mv);
        }
        let player = game.active_player();
        let draw = rng_below(&mut self.rng, 100);
        if game.walls_available(player) > 0 && draw < self.defense_weight_percent as usize {
            self.defensive_strategy.decide(game)
        } else {
            self.offensive_strategy.decide(game)
        }
    }
}

impl crate::strategy::Strategy for BalancedStrategy {
    fn name(&self) -> String {
        self.strategy_name()
    }

    fn choose_move(&mut self, game: &Quoridor) -> (r: Option<String>) {
        self.decide(game)
    }
}

} // verus!
