//! The Monte-Carlo tree search strategy: UCT selection, random
//! expansion, heuristic playouts, and backpropagation, under an
//! iteration budget.  The tree lives in a flat arena indexed by
//! integers; a child's index is always greater than its parent's, so
//! no aliasing or cycles can arise.

use vstd::prelude::*;
use vstd::string::StrSliceExecFns;
use crate::board::Quoridor;
use crate::notation::usize_to_string;
use crate::player::Player;
use crate::randsrc::{rng_below, rng_from_seed};
use crate::strategy::base::QuoridorStrategy;
use crate::strategy::{all_legal_moves, lemma_concat_elem_legal, move_is_legal};

verus! {

/// One node of the search tree: the move that produced it, whose turn
/// it is there, its statistics, its children (as arena indices), and
/// the moves not yet expanded.
pub struct MCTSNode {
    /// The move that led here, in algebraic notation.
    pub move_str: String,
    /// The player to move at this node's state.
    pub player_to_move: Player,
    /// How many simulations passed through this node.
    pub visits: u64,
    /// The accumulated score: ten per win for this node's mover, five
    /// per draw.
    pub score: u64,
    /// Children, as indices into the arena.
    pub children: Vec<usize>,
    /// Legal moves not yet turned into children.
    pub unexpanded: Vec<String>,
}

/// The arena is well formed for a root position: child indices point
/// strictly forward, and every move hanging off the root — child or
/// unexpanded — is legal at the root.
pub open spec fn arena_ok(arena: Seq<MCTSNode>, game: &Quoridor) -> bool {
    &&& arena.len() >= 1
    &&& (forall|i: int, j: int|
        0 <= i < arena.len() && 0 <= j < arena[i].children@.len() ==> i < #[trigger] arena[
            i
        ].children@[j] < arena.len())
    &&& (forall|j: int|
        0 <= j < arena[0].children@.len() ==> move_is_legal(
            game,
            arena[#[trigger] arena[0].children@[j] as int].move_str@,
        ))
    &&& (forall|k: int|
        0 <= k < arena[0].unexpanded@.len() ==> move_is_legal(
            game,
            (#[trigger] arena[0].unexpanded@[k])@,
        ))
}

/// The Monte-Carlo tree search strategy.
pub struct MCTSStrategy {
    /// The shared name and opening-book state.
    pub base: QuoridorStrategy,
    /// The simulation budget per decision.
    pub simulation_limit: usize,
    /// An optional secondary per-decision iteration cap, standing in
    /// for a wall clock.
    pub iteration_cap: Option<usize>,
    /// The random source.
    pub rng: rand::rngs::StdRng,
}

impl MCTSStrategy {
    /// Creates the strategy; a zero budget falls back to a thousand
    /// simulations.
    pub fn new(opening_name: &str, opening_moves: Vec<String>, simulation_limit: usize, seed: u64)
        -> (r: MCTSStrategy)
        ensures
            r.base.move_counter == 0,
            r.simulation_limit == if simulation_limit == 0 {
                1000usize
            } else {
                simulation_limit
            },
    {
        let sim_limit = if simulation_limit == 0 {
            1000
        } else {
            simulation_limit
        };
        let name = String::from_str("MCTS").concat(usize_to_string(sim_limit).as_str());
        MCTSStrategy {
            base: QuoridorStrategy::new(name.as_str(), opening_name, opening_moves),
            simulation_limit: sim_limit,
            iteration_cap: None,
            rng: rng_from_seed(seed),
        }
    }

    /// Adds the secondary budget, checked once per iteration; zero
    /// leaves it unlimited.
    pub fn with_time_limit(self, limit_iterations: usize) -> (r: MCTSStrategy)
        ensures
            r.simulation_limit == self.simulation_limit,
            r.base == self.base,
    {
        if limit_iterations > 0 {
            MCTSStrategy { iteration_cap: Some(limit_iterations), ..self }
        } else {
            self
        }
    }

    /// The strategy's display name.
    pub fn strategy_name(&self) -> (r: String)
        ensures
            r@ == "MCTS"@ + crate::notation::spec_dec_digits(self.simulation_limit as int),
    {
        let r = String::from_str("MCTS").concat(usize_to_string(self.simulation_limit).as_str());
        proof {
            assert(r@ =~= "MCTS"@ + crate::notation::spec_dec_digits(
                self.simulation_limit as int,
            ));
        }
        r
    }

    /// Whether either pawn stands on its goal row.
    fn is_terminal(game: &Quoridor) -> (r: bool)
        requires
            game.wf(),
    {
        proof {
            game.wf_bounds();
        }
        let p1 = game.pawn_position(Player::Player1);
        if p1.0 == 0 {
            return true;
        }
        let p2 = game.pawn_position(Player::Player2);
        p2.0 == game.size() - 1
    }

    /// An element-for-element copy of a label list.
    fn copy_labels(v: &Vec<String>) -> (r: Vec<String>)
        ensures
            r@.map_values(|s: String| s@) == v@.map_values(|s: String| s@),
    {
        let mut r: Vec<String> = Vec::new();
        let mut i: usize = 0;
        #[verifier::loop_isolation(false)]
        while i < v.len()
            invariant
                i <= v@.len(),
                r@.len() == i,
                forall|j: int| 0 <= j < i ==> (#[trigger] r@[j])@ == v@[j]@,
            decreases v@.len() - i,
        {
            r.push(v[i].clone());
            i += 1;
        }
        proof {
            assert(r@.map_values(|s: String| s@) =~= v@.map_values(|s: String| s@));
        }
        r
    }

    /// A fixed-point approximation of the natural logarithm, in
    /// millionths; used only to weigh exploration.
    fn ln_scaled(n: u64) -> (r: u64)
        ensures
            r <= 50000000,
    {
        let mut k: u64 = 0;
        let mut m: u64 = n;
        let mut pow2: u64 = 1;
        #[verifier::loop_isolation(false)]
        while m >= 2 && k < 63
            invariant
                pow2 >= 1,
                k <= 63,
            decreases m,
        {
            m = m / 2;
            if pow2 <= u64::MAX / 2 {
                pow2 = pow2 * 2;
            }
            k += 1;
        }
        let frac: u64 = if n >= pow2 {
            (((n - pow2) as u128 * 1000000u128 / pow2 as u128) % 1000000u128) as u64
        } else {
            0
        };
        let raw: u128 = (k as u128 * 1000000u128 + frac as u128) * 693147u128 / 1000000u128;
        if raw > 50000000u128 {
            50000000
        } else {
            raw as u64
        }
    }

    /// The integer square root (rounded down); used only to weigh
    /// exploration.
    fn isqrt(x: u128) -> (r: u64)
        requires
            x <= 0x10000000000000000,
        ensures
            (r as u128) * (r as u128) <= x,
            r <= 0x100000000,
    {
        let mut lo: u64 = 0;
        let mut hi: u64 = 0x100000000;
        #[verifier::loop_isolation(false)]
        while lo < hi
            invariant
                lo <= hi <= 0x100000000,
                (lo as u128) * (lo as u128) <= x,
            decreases hi - lo,
        {
            let mid = lo + (hi - lo + 1) / 2;
            proof {
                assert((mid as int) * (mid as int) <= 0x10000000000000000int) by (nonlinear_arith)
                    requires
                        mid <= 0x100000000,
                ;
            }
            if (mid as u128) * (mid as u128) <= x {
                lo = mid;
            } else {
                hi = mid - 1;
            }
        }
        lo
    }

    /// The UCT selection score of a visited child, in millionths: the
    /// win rate from the parent's perspective plus the exploration
    /// bonus `sqrt(2 ln(parent visits) / visits)`.
    fn uct_scaled(visits: u64, score: u64, parent_visits: u64) -> (r: i128)
        requires
            visits >= 1,
    {
        let diff: i128 = (visits as i128) - (score as i128);
        proof {
            assert(diff * 1000000 <= 0x10000000000000000int * 1000000 && diff * 1000000
                >= -0x10000000000000000int * 1000000) by (nonlinear_arith)
                requires
                    -0x10000000000000000 <= diff <= 0x10000000000000000,
            ;
        }
        let win_part: i128 = diff * 1000000i128 / (visits as i128);
        let ln_p = Self::ln_scaled(parent_visits);
        let under: u128 = 2u128 * (ln_p as u128) * 1000000u128 / (visits as u128);
        let explore = Self::isqrt(under);
        win_part + explore as i128
    }

    /// One heuristic playout from the given position: the mover races
    /// when at least level with its opponent or out of walls, plays
    /// uniformly otherwise; the winner, or `None` for a draw after 150
    /// plies or a failed move.
    fn simulate_playout(&mut self, sim: &mut Quoridor) -> (r: Option<Player>)
        requires
            old(sim).wf(),
        ensures
            final(sim).wf(),
            final(self).base == old(self).base,
            final(self).simulation_limit == old(self).simulation_limit,
            final(self).iteration_cap == old(self).iteration_cap,
            r matches Some(p) ==> final(sim)@.pawn(p).0 == final(sim)@.goal_row(p) || (p
                == final(sim)@.active.spec_opponent() && crate::board::spec_legal_moves(
                final(sim)@,
                final(sim)@.active,
            ).len() == 0),
    {
        let mut ply: usize = 0;
        #[verifier::loop_isolation(false)]
        while ply < 150
            invariant
                sim.wf(),
                self.base == old(self).base,
                self.simulation_limit == old(self).simulation_limit,
                self.iteration_cap == old(self).iteration_cap,
            decreases 150 - ply,
        {
            proof {
                sim.wf_bounds();
            }
            let p1 = sim.pawn_position(Player::Player1);
            if p1.0 == 0 {
                return Some(Player::Player1);
            }
            let p2 = sim.pawn_position(Player::Player2);
            if p2.0 == sim.size() - 1 {
                return Some(Player::Player2);
            }
            let player = sim.active_player();
            let p_dist = sim.distance_to_goal(player);
            let o_dist = sim.distance_to_goal(player.opponent());
            let walls_left = sim.walls_available(player);
            if p_dist <= o_dist || walls_left == 0 {
                let pawn_moves = sim.get_legal_moves(player);
                if pawn_moves.len() == 0 {
                    proof {
                        assert(pawn_moves@.map_values(|s: String| s@).len() == 0);
                    }
                    return Some(player.opponent());
                }
                let mut best = pawn_moves[0].clone();
                let mut min_dist = p_dist;
                let mut i: usize = 0;
                #[verifier::loop_isolation(false)]
                while i < pawn_moves.len()
                    invariant
                        sim.wf(),
                    decreases pawn_moves@.len() - i,
                {
                    let mut temp = sim.clone_state();
                    if temp.move_pawn(pawn_moves[i].as_str(), false) {
                        let d = temp.distance_to_goal(player);
                        if d < min_dist {
                            min_dist = d;
                            best = pawn_moves[i].clone();
                        }
                    }
                    i += 1;
                }
                if !sim.move_pawn(best.as_str(), true) {
                    return None;
                }
            } else {
                let all = all_legal_moves(sim);
                if all.len() == 0 {
                    proof {
                        assert(all@.map_values(|s: String| s@).len() == 0);
                    }
                    return Some(player.opponent());
                }
                let k = rng_below(&mut self.rng, all.len());
                let mv = &all[k];
                let n = mv.as_str().unicode_len();
                let moved = if n >= 3 {
                    sim.add_wall(mv.as_str(), false, true)
                } else {
                    sim.move_pawn(mv.as_str(), true)
                };
                if !moved {
                    return None;
                }
            }
            ply += 1;
        }
        None
    }

    /// The child to descend into: an unvisited child takes absolute
    /// priority, else the greatest UCT score wins (the last of equal
    /// bests).
    fn select_child(arena: &Vec<MCTSNode>, cur: usize) -> (r: usize)
        requires
            cur < arena@.len(),
            arena@[cur as int].children@.len() >= 1,
            forall|j: int|
                0 <= j < arena@[cur as int].children@.len() ==> #[trigger] arena@[
                    cur as int
                ].children@[j] < arena@.len(),
        ensures
            exists|j: int|
                0 <= j < arena@[cur as int].children@.len() && r == arena@[cur as int].children@[j],
    {
        let parent_visits = arena[cur].visits;
        let n = arena[cur].children.len();
        let mut best = arena[cur].children[0];
        let first_visits = arena[best].visits;
        let mut best_val: i128 = if first_visits == 0 {
            i128::MAX
        } else {
            Self::uct_scaled(first_visits, arena[best].score, parent_visits)
        };
        let mut j: usize = 1;
        #[verifier::loop_isolation(false)]
        while j < n
            invariant
                1 <= j <= n,
                n == arena@[cur as int].children@.len(),
                exists|jj: int| 0 <= jj < n && best == arena@[cur as int].children@[jj],
            decreases n - j,
        {
            let c = arena[cur].children[j];
            let cv = arena[c].visits;
            let val: i128 = if cv == 0 {
                i128::MAX
            } else {
                Self::uct_scaled(cv, arena[c].score, parent_visits)
            };
            if val >= best_val {
                best = c;
                best_val = val;
            }
            j += 1;
        }
        best
    }

    /// Runs the budgeted tree search and returns the most visited root
    /// move; a single legal move is returned without searching, and
    /// `None` forfeits exactly when no legal move exists.
    #[verifier::rlimit(100)]
    pub fn run_search(&mut self, game: &Quoridor) -> (r: Option<String>)
        requires
            game.wf(),
        ensures
            r matches Some(s) ==> move_is_legal(game, s@),
            r is None <==> crate::strategy::spec_all_moves(game@).len() == 0,
            crate::strategy::spec_all_moves(game@).len() == 1 ==> (r matches Some(s) && s@
                == crate::strategy::spec_all_moves(game@)[0]),
            final(self).base == old(self).base,
            final(self).simulation_limit == old(self).simulation_limit,
            final(self).iteration_cap == old(self).iteration_cap,
    {
        let root_moves = all_legal_moves(game);
        proof {
            assert(root_moves@.map_values(|s: String| s@).len() == root_moves@.len());
        }
        if root_moves.len() == 0 {
            return None;
        }
        if root_moves.len() == 1 {
            proof {
                lemma_concat_elem_legal(game, 0);
                assert(root_moves@.map_values(|s: String| s@)[0] == root_moves@[0]@);
            }
            return Some(root_moves[0].clone());
        }
        let root_player = game.active_player();
        let mut arena: Vec<MCTSNode> = Vec::new();
        arena.push(
            MCTSNode {
                move_str: String::from_str("root"),
                player_to_move: root_player,
                visits: 0,
                score: 0,
                children: Vec::new(),
                unexpanded: Self::copy_labels(&root_moves),
            },
        );
        proof {
            assert forall|k: int| 0 <= k < arena@[0].unexpanded@.len() implies move_is_legal(
                game,
                (#[trigger] arena@[0].unexpanded@[k])@,
            ) by {
                lemma_concat_elem_legal(game, k);
            }
        }
        let limit = self.simulation_limit;
        let cap = self.iteration_cap;
        let mut sims: usize = 0;
        let mut ticks: usize = 0;
        #[verifier::loop_isolation(false)]
        while sims < limit
            invariant
                arena_ok(arena@, game),
                ticks <= sims,
                sims <= limit,
                self.base == old(self).base,
                self.simulation_limit == old(self).simulation_limit,
                self.iteration_cap == old(self).iteration_cap,
            decreases limit - sims,
        {
            sims += 1;
            let mut stop = false;
            match cap {
                Some(c) => {
                    ticks += 1;
                    if ticks >= c {
                        stop = true;
                    }
                },
                None => {},
            }
            if stop {
                return Self::finish_search(&mut self.rng, &arena, &root_moves, game);
            }
            let mut sim = game.clone_state();
            let mut path: Vec<usize> = Vec::new();
            path.push(0);
            // Selection: descend while fully expanded and not terminal.
            #[verifier::loop_isolation(false)]
            loop
                invariant
                    arena_ok(arena@, game),
                    sim.wf(),
                    path@.len() >= 1,
                    forall|t: int| 0 <= t < path@.len() ==> #[trigger] path@[t] < arena@.len(),
                decreases arena@.len() - path@[path@.len() - 1],
            {
                let cur = path[path.len() - 1];
                if !(arena[cur].unexpanded.len() == 0 && arena[cur].children.len() > 0) {
                    break;
                }
                if Self::is_terminal(&sim) {
                    break;
                }
                let nxt = Self::select_child(&arena, cur);
                let mv = arena[nxt].move_str.clone();
                let n = mv.as_str().unicode_len();
                let moved = if n >= 3 {
                    sim.add_wall(mv.as_str(), false, true)
                } else {
                    sim.move_pawn(mv.as_str(), true)
                };
                if !moved {
                    break;
                }
                path.push(nxt);
            }
            // Expansion: try one untried move of the reached node.
            let cur = path[path.len() - 1];
            if !Self::is_terminal(&sim) && arena[cur].unexpanded.len() > 0 {
                let k = rng_below(&mut self.rng, arena[cur].unexpanded.len());
                let ghost pre = arena@;
                let mv = {
                    let node = &mut arena[cur];
                    node.unexpanded.remove(k)
                };
                proof {
                    assert(arena_ok(arena@, game)) by {
                        assert forall|kk: int| 0 <= kk < arena@[0].unexpanded@.len() implies
                            move_is_legal(game, (#[trigger] arena@[0].unexpanded@[kk])@) by {
                            if cur == 0 {
                                assert(arena@[0].unexpanded@ == pre[0].unexpanded@.remove(
                                    k as int,
                                ));
                            }
                        }
                    }
                    if cur == 0 {
                        assert(move_is_legal(game, mv@)) by {
                            assert(pre[0].unexpanded@[k as int] == mv);
                        }
                    }
                }
                let n = mv.as_str().unicode_len();
                let moved = if n >= 3 {
                    sim.add_wall(mv.as_str(), false, true)
                } else {
                    sim.move_pawn(mv.as_str(), true)
                };
                if moved {
                    let terminal2 = Self::is_terminal(&sim);
                    let child_moves = if terminal2 {
                        Vec::new()
                    } else {
                        all_legal_moves(&sim)
                    };
                    let new_node = MCTSNode {
                        move_str: mv,
                        player_to_move: sim.active_player(),
                        visits: 0,
                        score: 0,
                        children: Vec::new(),
                        unexpanded: child_moves,
                    };
                    arena.push(new_node);
                    let ci = arena.len() - 1;
                    let ghost pre2 = arena@;
                    {
                        let node = &mut arena[cur];
                        node.children.push(ci);
                    }
                    proof {
                        assert(arena_ok(arena@, game)) by {
                            assert(arena@[cur as int].children@ == pre2[cur as int].children@.push(
                                ci,
                            ));
                        }
                    }
                    path.push(ci);
                }
            }
            // Simulation.
            let winner = self.simulate_playout(&mut sim);
            // Backpropagation.
            let mut t: usize = 0;
            #[verifier::loop_isolation(false)]
            while t < path.len()
                invariant
                    arena_ok(arena@, game),
                    forall|tt: int| 0 <= tt < path@.len() ==> #[trigger] path@[tt] < arena@.len(),
                decreases path@.len() - t,
            {
                let idx = path[t];
                let delta: u64 = match winner {
                    Some(wp) => {
                        if wp == arena[idx].player_to_move {
                            10
                        } else {
                            0
                        }
                    },
                    None => 5,
                };
                let ghost pre3 = arena@;
                {
                    let node = &mut arena[idx];
                    node.visits = if node.visits < u64::MAX {
                        node.visits + 1
                    } else {
                        node.visits
                    };
                    node.score = if node.score <= u64::MAX - delta {
                        node.score + delta
                    } else {
                        node.score
                    };
                }
                proof {
                    assert(arena_ok(arena@, game)) by {
                        assert(arena@[idx as int].children@ == pre3[idx as int].children@);
                        assert(arena@[0].unexpanded@ == pre3[0].unexpanded@);
                        assert(arena@[0].children@ == pre3[0].children@);
                    }
                }
                t += 1;
            }
        }
        Self::finish_search(&mut self.rng, &arena, &root_moves, game)
    }

    /// The final choice: the move of a most visited root child (the
    /// last of equal bests), or a uniformly random root move when
    /// nothing was explored.
    fn finish_search(
        rng: &mut rand::rngs::StdRng,
        arena: &Vec<MCTSNode>,
        root_moves: &Vec<String>,
        game: &Quoridor,
    ) -> (r: Option<String>)
        requires
            game.wf(),
            arena_ok(arena@, game),
            root_moves@.map_values(|s: String| s@) == crate::strategy::spec_all_moves(game@),
            root_moves@.len() >= 1,
        ensures
            r is Some,
            r matches Some(s) ==> move_is_legal(game, s@),
            arena@[0].children@.len() > 0 ==> (r matches Some(s) && exists|jj: int|
                0 <= jj < arena@[0].children@.len() && s == arena@[#[trigger] arena@[
                    0
                ].children@[jj] as int].move_str && (forall|k: int|
                    0 <= k < arena@[0].children@.len() ==> arena@[#[trigger] arena@[
                        0
                    ].children@[k] as int].visits <= arena@[arena@[0].children@[jj] as int].visits)),
    {
        let n = arena[0].children.len();
        if n == 0 {
            let k = rng_below(rng, root_moves.len());
            proof {
                lemma_concat_elem_legal(game, k as int);
            }
            return Some(root_moves[k].clone());
        }
        let mut best_c = arena[0].children[0];
        let mut j: usize = 1;
        #[verifier::loop_isolation(false)]
        while j < n
            invariant
                1 <= j <= n,
                exists|jj: int|
                    0 <= jj < n && best_c == arena@[0].children@[jj] && (forall|k: int|
                        0 <= k < j ==> arena@[#[trigger] arena@[0].children@[k] as int].visits
                            <= arena@[arena@[0].children@[jj] as int].visits),
            decreases n - j,
        {
            let c = arena[0].children[j];
            if arena[c].visits >= arena[best_c].visits {
                best_c = c;
            }
            j += 1;
        }
        Some(arena[best_c].move_str.clone())
    }

    /// Chooses a move: a scripted and legal opening move if one is
    /// due, else the tree search's pick; forfeits exactly when no
    /// legal move exists.
    pub fn decide(&mut self, game: &Quoridor) -> (r: Option<String>)
        requires
            game.wf(),
        ensures
            r matches Some(s) ==> move_is_legal(game, s@),
            crate::board::spec_legal_moves(game@, game@.active).len() > 0 ==> r is Some,
            ({
                let sp = crate::strategy::base::spec_try_opening(
                    game@,
                    old(self).base.opening_moves@.map_values(|s: String| s@),
                    old(self).base.move_counter,
                );
                &&& final(self).base.move_counter == sp.1
                &&& final(self).base.opening_moves == old(self).base.opening_moves
                &&& final(self).base.name == old(self).base.name
                &&& final(self).simulation_limit == old(self).simulation_limit
                &&& final(self).iteration_cap == old(self).iteration_cap
                &&& (match sp.0 {
                    Some(mv) => r matches Some(s) && s@ == mv,
                    None => (r is None <==> crate::strategy::spec_all_moves(game@).len() == 0),
                })
            }),
    {
        if let Some(mv) = self.base.try_opening_move(game) {
            return Some(mv);
        }
        self.run_search(game)
    }
}

impl crate::strategy::Strategy for MCTSStrategy {
    fn name(&self) -> String {
        self.strategy_name()
    }

    fn choose_move(&mut self, game: &Quoridor) -> (r: Option<String>) {
        self.decide(game)
    }
}

} // verus!
