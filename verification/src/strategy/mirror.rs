//! The mirroring strategy: shadow the opponent's pawn through the
//! board center and echo its walls.

use vstd::prelude::*;
use vstd::string::StrSliceExecFns;
use crate::board::{Quoridor, spec_legal_moves};
use crate::notation::Coord;
use crate::strategy::adaptive::AdaptiveStrategy;
use crate::strategy::base::QuoridorStrategy;
use crate::strategy::{lemma_pawn_elem_legal, lemma_wall_elem_legal, move_is_legal};

verus! {

/// Moves toward the mirror image of the opponent's pawn, mirrors its
/// walls when possible, and otherwise falls back to adaptive play.
pub struct MirrorStrategy {
    /// The shared name and opening-book state.
    pub base: QuoridorStrategy,
    /// The fallback when no mirroring move applies.
    pub backup_strategy: AdaptiveStrategy,
}

impl MirrorStrategy {
    /// Creates the strategy.
    pub fn new(opening_name: &str, opening_moves: Vec<String>, seed: u64) -> (r: MirrorStrategy)
        ensures
            r.base.move_counter == 0,
    {
        MirrorStrategy {
            base: QuoridorStrategy::new("Mirror", opening_name, opening_moves),
            backup_strategy: AdaptiveStrategy::new("", Vec::new(), seed),
        }
    }

    /// The strategy's display name.
    pub fn strategy_name(&self) -> (r: String)
        ensures
            r == self.base.name,
    {
        self.base.name.clone()
    }

    /// The cell's mirror image through the board center.
    fn mirrored_coord(size: usize, c: Coord) -> (r: Coord)
        requires
            c.0 < size,
            c.1 < size,
        ensures
            r.0 == size - 1 - c.0,
            r.1 == size - 1 - c.1,
    {
        (size - 1 - c.0, size - 1 - c.1)
    }

    /// The legal pawn move closest (by squared distance) to a target.
    #[verifier::rlimit(100)]
    fn find_best_move_towards(&self, game: &Quoridor, target: Coord) -> (r: Option<String>)
        requires
            game.wf(),
            target.0 < game@.size,
            target.1 < game@.size,
        ensures
            r matches Some(s) ==> move_is_legal(game, s@),
    {
        proof {
            game.wf_bounds();
        }
        let legal_moves = game.get_legal_moves(game.active_player());
        let mut best: Option<String> = None;
        let mut best_d2: u64 = u64::MAX;
        let mut i: usize = 0;
        #[verifier::loop_isolation(false)]
        while i < legal_moves.len()
            invariant
                i <= legal_moves@.len(),
                best matches Some(s) ==> move_is_legal(game, s@),
            decreases legal_moves@.len() - i,
        {
            let mv = &legal_moves[i];
            proof {
                lemma_pawn_elem_legal(game, i as int);
            }
            match game.algebraic_to_coord(mv.as_str()) {
                Ok(c) => {
                    let dr: u64 = if c.0 > target.0 {
                        (c.0 - target.0) as u64
                    } else {
                        (target.0 - c.0) as u64
                    };
                    let dc: u64 = if c.1 > target.1 {
                        (c.1 - target.1) as u64
                    } else {
                        (target.1 - c.1) as u64
                    };
                    proof {
                        assert(dr < 0x10000 && dc < 0x10000);
                        assert((dr as int) * (dr as int) + (dc as int) * (dc as int)
                            <= 0x10000int * 0x10000 * 2) by (nonlinear_arith)
                            requires
                                dr < 0x10000,
                                dc < 0x10000,
                        ;
                    }
                    let d2 = dr * dr + dc * dc;
                    if d2 < best_d2 {
                        best_d2 = d2;
                        best = Some(mv.clone());
                    }
                },
                Err(_) => {},
            }
            i += 1;
        }
        best
    }

    /// A wall placement mirroring one of the placed walls, when one is
    /// still legal.
    #[verifier::rlimit(100)]
    fn find_mirrored_wall_placement(&self, game: &Quoridor) -> (r: Option<String>)
        requires
            game.wf(),
        ensures
            r matches Some(s) ==> move_is_legal(game, s@),
    {
        let player = game.active_player();
        if game.walls_available(player) == 0 {
            return None;
        }
        let legal_walls = game.get_legal_walls(player);
        let hwalls = game.hwall_positions();
        let vwalls = game.vwall_positions();
        let size = game.size();
        proof {
            reveal_strlit("h");
            reveal_strlit("v");
        }
        let mut i: usize = 0;
        #[verifier::loop_isolation(false)]
        while i < hwalls.len()
            invariant
                i <= hwalls@.len(),
            decreases hwalls@.len() - i,
        {
            let w = hwalls[i];
            proof {
                game.wf_bounds();
            }
            let mc = Self::mirrored_coord(size, w);
            let label = game.coord_to_algebraic(mc).concat("h");
            if let Some(found) = Self::find_label(&legal_walls, &label) {
                proof {
                    lemma_wall_elem_legal(game, found as int);
                }
                return Some(legal_walls[found].clone());
            }
            i += 1;
        }
        let mut j: usize = 0;
        #[verifier::loop_isolation(false)]
        while j < vwalls.len()
            invariant
                j <= vwalls@.len(),
            decreases vwalls@.len() - j,
        {
            let w = vwalls[j];
            proof {
                game.wf_bounds();
            }
            let mc = Self::mirrored_coord(size, w);
            let label = game.coord_to_algebraic(mc).concat("v");
            if let Some(found) = Self::find_label(&legal_walls, &label) {
                proof {
                    lemma_wall_elem_legal(game, found as int);
                }
                return Some(legal_walls[found].clone());
            }
            j += 1;
        }
        None
    }

    /// The index of a label in a move list.
    fn find_label(list: &Vec<String>, label: &String) -> (r: Option<usize>)
        ensures
            r matches Some(i) ==> i < list@.len(),
    {
        let mut i: usize = 0;
        #[verifier::loop_isolation(false)]
        while i < list.len()
            invariant
                i <= list@.len(),
            decreases list@.len() - i,
        {
            if list[i].eq(label) {
                return Some(i);
            }
            i += 1;
        }
        None
    }

    /// Shadows the opponent: step toward its mirror image, else echo
    /// one of the placed walls, else play the adaptive fallback.
    pub fn decide(&mut self, game: &Quoridor) -> (r: Option<String>)
        requires
            game.wf(),
        ensures
            r matches Some(s) ==> move_is_legal(game, s@),
            spec_legal_moves(game@, game@.active).len() > 0 ==> r is Some,
    {
        if let Some(mv) = self.base.try_opening_move(game) {
            return Some(mv);
        }
        let player = game.active_player();
        let opponent = player.opponent();
        let opp_pos = game.pawn_position(opponent);
        proof {
            game.wf_bounds();
        }
        let target = Self::mirrored_coord(game.size(), opp_pos);
        if let Some(pawn_move) = self.find_best_move_towards(game, target) {
            let own = game.pawn_position(player);
            if !(own.0 == target.0 && own.1 == target.1) {
                return Some(pawn_move);
            }
        }
        if let Some(wall_move) = self.find_mirrored_wall_placement(game) {
            return Some(wall_move);
        }
        self.backup_strategy.decide(game)
    }
}

impl crate::strategy::Strategy for MirrorStrategy {
    fn name(&self) -> String {
        self.strategy_name()
    }

    fn choose_move(&mut self, game: &Quoridor) -> (r: Option<String>) {
        self.decide(game)
    }
}

} // verus!
