//! Core rules engine and AI decision strategies for the Quoridor board game.
//!
//! The library owns the board model (grid cells connected by a wall-aware
//! adjacency graph), move and wall legality including the path-existence
//! invariant, the move notation, and three search strategies (Monte-Carlo
//! tree search, alpha-beta minimax, simulated annealing) plus a family of
//! simple heuristic strategies.

pub mod board;
pub mod boardgraph;
pub mod errors;
pub mod model;
pub mod notation;
pub mod openings;
pub mod player;
pub mod randsrc;
pub mod strategy;
pub mod textparse;

pub use board::Quoridor;
pub use errors::GameError;
pub use notation::Coord;
pub use notation::abs_diff;
pub use notation::algebraic_to_coord;
pub use notation::coord_to_algebraic;
pub use openings::get_opening_moves;
pub use player::Player;
pub use strategy::Strategy;
pub use strategy::{
    AdaptiveStrategy, BalancedStrategy, DefensiveStrategy, MCTSStrategy, MinimaxStrategy,
    MirrorStrategy, QuoridorStrategy, RandomStrategy, ShortestPathStrategy,
    SimulatedAnnealingStrategy,
};
