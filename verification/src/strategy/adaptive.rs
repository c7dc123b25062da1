//! The adaptive strategy: race while ahead, block while behind.

use vstd::prelude::*;
use crate::board::{Quoridor, spec_legal_moves};
use crate::strategy::base::QuoridorStrategy;
use crate::strategy::defensive::DefensiveStrategy;
use crate::strategy::shortest_path::ShortestPathStrategy;
use crate::strategy::move_is_legal;

verus! {

/// Races when at least as close to its goal as the opponent, plays
/// defensively otherwise.
pub struct AdaptiveStrategy {
    /// The shared name and opening-book state.
    pub base: QuoridorStrategy,
    /// The defensive half.
    pub defensive_strategy: DefensiveStrategy,
    /// The offensive half.
    pub offensive_strategy: ShortestPathStrategy,
}

impl AdaptiveStrategy {
    /// Creates the strategy.
    pub fn new(opening_name: &str, opening_moves: Vec<String>, seed: u64) -> (r: AdaptiveStrategy)
        ensures
            r.base.move_counter == 0,
    {
        AdaptiveStrategy {
            base: QuoridorStrategy::new("Adaptive", opening_name, opening_moves),
            defensive_strategy: DefensiveStrategy::new("", Vec::new(), 70, seed),
            offensive_strategy: ShortestPathStrategy::new("", Vec::new()),
        }
    }

    /// The strategy's display name.
    pub fn strategy_name(&self) -> (r: String)
        ensures
            r == self.base.name,
    {
        self.base.name.clone()
    }

    /// Races while at least as close to the goal as the opponent,
    /// blocks otherwise.
    pub fn decide(&mut self, game: &Quoridor) -> (r: Option<String>)
        requires
            game.wf(),
        ensures
            r matches Some(s) ==> move_is_legal(game, s@),
            spec_legal_moves(game@, game@.active).len() > 0 ==> r is Some,
    {
        if let Some(mv) = self.base.try_opening_move(game) {
            return Some(mv);
        }
        let player = game.active_player();
        let opponent = player.opponent();
        let player_distance = game.distance_to_goal(player);
        let opponent_distance = game.distance_to_goal(opponent);
        if player_distance <= opponent_distance {
            self.offensive_strategy.decide(game)
        } else {
            self.defensive_strategy.decide(game)
        }
    }
}

impl crate::strategy::Strategy for AdaptiveStrategy {
    fn name(&self) -> String {
        self.strategy_name()
    }

    fn choose_move(&mut self, game: &Quoridor) -> (r: Option<String>) {
        self.decide(game)
    }
}

} // verus!
