//! The fixed-depth minimax strategy with alpha-beta pruning.  Its
//! decision is specified exactly as a function of the position and the
//! depth alone, so repeated invocations on the same state choose the
//! same move.

use vstd::prelude::*;
use vstd::string::StrSliceExecFns;
use crate::board::{Quoridor, spec_legal_moves, spec_legal_walls, spec_win_check};
use crate::model::GameModel;
use crate::notation::usize_to_string;
use crate::player::Player;
use crate::strategy::base::{QuoridorStrategy, spec_strategy_name, spec_try_opening};
use crate::strategy::eval::{
    Eval, eval_lt, eval_ok, evaluate_position, spec_eval_le, spec_eval_lt, spec_eval_max,
    spec_eval_min, spec_evaluate,
};
use crate::strategy::{
    apply_search_move, lemma_concat_elem_legal, lemma_pawn_elem_legal, move_is_legal,
    spec_all_moves, spec_apply_search_move,
};

verus! {

/// The minimax value of a position: a win already on the board decides
/// it; at depth zero the static evaluation speaks; otherwise the legal
/// moves are searched with alpha-beta pruning, the maximizing layer
/// standing for the first player.
pub open spec fn spec_alphabeta(
    m: GameModel,
    depth: nat,
    alpha: Eval,
    beta: Eval,
    maximizing: bool,
) -> Eval
    decreases depth, 1int, 0int,
{
    let last = m.active.spec_opponent();
    if m.pawn(last).0 == m.goal_row(last) {
        if last is Player1 {
            Eval::PosInf
        } else {
            Eval::NegInf
        }
    } else if depth == 0 {
        spec_evaluate(m)
    } else {
        let moves = spec_all_moves(m);
        if moves.len() == 0 {
            if maximizing {
                Eval::NegInf
            } else {
                Eval::PosInf
            }
        } else {
            spec_ab_fold(
                m,
                moves,
                0,
                depth,
                alpha,
                beta,
                maximizing,
                if maximizing {
                    Eval::NegInf
                } else {
                    Eval::PosInf
                },
            )
        }
    }
}

/// One alpha-beta layer folded over the move list from index `i`,
/// carrying the best value found; pruned the moment the window
/// closes.
pub open spec fn spec_ab_fold(
    m: GameModel,
    moves: Seq<Seq<char>>,
    i: int,
    depth: nat,
    alpha: Eval,
    beta: Eval,
    maximizing: bool,
    best: Eval,
) -> Eval
    decreases depth, 0int, (if i < moves.len() { moves.len() - i } else { 0int }),
{
    if i < 0 || i >= moves.len() || depth == 0 {
        best
    } else {
        let step = spec_apply_search_move(m, moves[i]);
        if !step.0 {
            spec_ab_fold(m, moves, i + 1, depth, alpha, beta, maximizing, best)
        } else {
            let e = spec_alphabeta(step.1, (depth - 1) as nat, alpha, beta, !maximizing);
            if maximizing {
                let best2 = spec_eval_max(best, e);
                let alpha2 = spec_eval_max(alpha, e);
                if spec_eval_le(beta, alpha2) {
                    best2
                } else {
                    spec_ab_fold(m, moves, i + 1, depth, alpha2, beta, maximizing, best2)
                }
            } else {
                let best2 = spec_eval_min(best, e);
                let beta2 = spec_eval_min(beta, e);
                if spec_eval_le(beta2, alpha) {
                    best2
                } else {
                    spec_ab_fold(m, moves, i + 1, depth, alpha, beta2, maximizing, best2)
                }
            }
        }
    }
}

/// The first immediately winning pawn move, if any.
pub open spec fn spec_first_winning(m: GameModel, moves: Seq<Seq<char>>, i: int) -> Option<
    Seq<char>,
>
    decreases (if i < moves.len() { moves.len() - i } else { 0int }),
{
    if i < 0 || i >= moves.len() {
        None
    } else if spec_win_check(m, moves[i]) {
        Some(moves[i])
    } else {
        spec_first_winning(m, moves, i + 1)
    }
}

/// The root search: each move is valued one ply into the minimizing
/// layer, and the first strict improvement wins the choice.
pub open spec fn spec_root_fold(
    m: GameModel,
    moves: Seq<Seq<char>>,
    i: int,
    depth: nat,
    best_score: Eval,
    best: Option<Seq<char>>,
) -> Option<Seq<char>>
    decreases (if i < moves.len() { moves.len() - i } else { 0int }),
{
    if i < 0 || i >= moves.len() {
        best
    } else {
        let step = spec_apply_search_move(m, moves[i]);
        if !step.0 {
            spec_root_fold(m, moves, i + 1, depth, best_score, best)
        } else {
            let e = spec_alphabeta(step.1, depth, Eval::NegInf, Eval::PosInf, false);
            if spec_eval_lt(best_score, e) {
                spec_root_fold(m, moves, i + 1, depth, e, Some(moves[i]))
            } else {
                spec_root_fold(m, moves, i + 1, depth, best_score, best)
            }
        }
    }
}

/// The minimax decision at a position: an instant win at once, else
/// the best-valued move of the root search, else the first legal move
/// as a last resort, else forfeit.
pub open spec fn spec_minimax_decision(m: GameModel, depth: nat) -> Option<Seq<char>> {
    let pawn = spec_legal_moves(m, m.active);
    match spec_first_winning(m, pawn, 0) {
        Some(w) => Some(w),
        None => {
            let all = spec_all_moves(m);
            if all.len() == 0 {
                None
            } else {
                match spec_root_fold(m, all, 0, (depth - 1) as nat, Eval::NegInf, None) {
                    Some(mv) => Some(mv),
                    None => if pawn.len() > 0 {
                        Some(pawn[0])
                    } else if spec_legal_walls(m, m.active).len() > 0 {
                        Some(spec_legal_walls(m, m.active)[0])
                    } else {
                        None
                    },
                }
            }
        },
    }
}

/// A root-fold result always comes from the move list.
pub proof fn lemma_root_fold_from_moves(
    m: GameModel,
    moves: Seq<Seq<char>>,
    i: int,
    depth: nat,
    best_score: Eval,
    best: Option<Seq<char>>,
)
    requires
        best matches Some(s) ==> moves.contains(s),
    ensures
        spec_root_fold(m, moves, i, depth, best_score, best) matches Some(s) ==> moves.contains(s),
    decreases (if i < moves.len() { moves.len() - i } else { 0int }),
{
    if i < 0 || i >= moves.len() {
    } else {
        let step = spec_apply_search_move(m, moves[i]);
        if !step.0 {
            lemma_root_fold_from_moves(m, moves, i + 1, depth, best_score, best);
        } else {
            let e = spec_alphabeta(step.1, depth, Eval::NegInf, Eval::PosInf, false);
            if spec_eval_lt(best_score, e) {
                assert(moves.contains(moves[i]));
                lemma_root_fold_from_moves(m, moves, i + 1, depth, e, Some(moves[i]));
            } else {
                lemma_root_fold_from_moves(m, moves, i + 1, depth, best_score, best);
            }
        }
    }
}

/// A winning-move scan result always comes from the move list.
pub proof fn lemma_first_winning_from_moves(m: GameModel, moves: Seq<Seq<char>>, i: int)
    ensures
        spec_first_winning(m, moves, i) matches Some(s) ==> moves.contains(s),
    decreases (if i < moves.len() { moves.len() - i } else { 0int }),
{
    if i < 0 || i >= moves.len() {
    } else if spec_win_check(m, moves[i]) {
        assert(moves.contains(moves[i]));
    } else {
        lemma_first_winning_from_moves(m, moves, i + 1);
    }
}

/// The minimax decision never proposes a move the board would
/// reject: whatever it returns is one of the active player's legal
/// pawn moves or legal wall placements.
pub proof fn lemma_minimax_decision_legal(m: GameModel, depth: nat)
    ensures
        spec_minimax_decision(m, depth) matches Some(s) ==> spec_legal_moves(
            m,
            m.active,
        ).contains(s) || spec_legal_walls(m, m.active).contains(s),
{
    let pawn = spec_legal_moves(m, m.active);
    let walls = spec_legal_walls(m, m.active);
    lemma_first_winning_from_moves(m, pawn, 0);
    match spec_first_winning(m, pawn, 0) {
        Some(_) => {
        },
        None => {
            let all = spec_all_moves(m);
            if all.len() > 0 {
                lemma_root_fold_from_moves(
                    m,
                    all,
                    0,
                    (depth - 1) as nat,
                    Eval::NegInf,
                    None,
                );
                match spec_root_fold(m, all, 0, (depth - 1) as nat, Eval::NegInf, None) {
                    Some(mv) => {
                        let i = choose|i: int| 0 <= i < all.len() && all[i] == mv;
                        if i < pawn.len() {
                            assert(pawn.contains(mv)) by {
                                assert(pawn[i] == mv);
                            }
                        } else {
                            assert(walls.contains(mv)) by {
                                assert(walls[i - pawn.len()] == mv);
                            }
                        }
                    },
                    None => {
                        if pawn.len() > 0 {
                            assert(pawn.contains(pawn[0]));
                        } else if walls.len() > 0 {
                            assert(walls.contains(walls[0]));
                        }
                    },
                }
            }
        },
    }
}

/// The fixed-depth alpha-beta strategy.
pub struct MinimaxStrategy {
    /// The shared name and opening-book state.
    pub base: QuoridorStrategy,
    /// The search depth, at least one.
    pub depth: usize,
}

impl MinimaxStrategy {
    /// Creates the strategy; the depth must be at least one.  The base
    /// name carries the depth.
    pub fn new(opening_name: &str, opening_moves: Vec<String>, depth: usize) -> (r:
        MinimaxStrategy)
        requires
            depth >= 1,
        ensures
            r.depth == depth,
            r.base.move_counter == 0,
            r.base.name@ == spec_strategy_name(
                "Minimax"@ + crate::notation::spec_dec_digits(depth as int),
                opening_name@,
                opening_moves@.map_values(|s: String| s@),
            ),
    {
        let name = String::from_str("Minimax").concat(usize_to_string(depth).as_str());
        proof {
            assert(name@ =~= "Minimax"@ + crate::notation::spec_dec_digits(depth as int));
        }
        MinimaxStrategy { base: QuoridorStrategy::new(name.as_str(), opening_name, opening_moves), depth }
    }

    /// The strategy's display name.
    pub fn strategy_name(&self) -> (r: String)
        ensures
            r == self.base.name,
    {
        self.base.name.clone()
    }

    /// The alpha-beta search itself.
    #[verifier::rlimit(100)]
    fn alphabeta(game: &Quoridor, depth: usize, alpha: Eval, beta: Eval, maximizing: bool) -> (r:
        Eval)
        requires
            game.wf(),
            eval_ok(alpha),
            eval_ok(beta),
        ensures
            r == spec_alphabeta(game@, depth as nat, alpha, beta, maximizing),
            eval_ok(r),
        decreases depth,
    {
        proof {
            game.wf_bounds();
        }
        let last = game.active_player().opponent();
        let last_pos = game.pawn_position(last);
        let goal = match last {
            Player::Player1 => 0,
            Player::Player2 => game.size() - 1,
        };
        if last_pos.0 == goal {
            return match last {
                Player::Player1 => Eval::PosInf,
                Player::Player2 => Eval::NegInf,
            };
        }
        if depth == 0 {
            return evaluate_position(game);
        }
        let moves = crate::strategy::all_legal_moves(game);
        if moves.len() == 0 {
            return if maximizing {
                Eval::NegInf
            } else {
                Eval::PosInf
            };
        }
        let ghost mspec = spec_all_moves(game@);
        let ghost alpha0 = alpha;
        let ghost beta0 = beta;
        let mut best: Eval = if maximizing {
            Eval::NegInf
        } else {
            Eval::PosInf
        };
        let ghost best0 = best;
        let mut a = alpha;
        let mut b = beta;
        let mut i: usize = 0;
        let mut cut = false;
        #[verifier::loop_isolation(false)]
        while i < moves.len() && !cut
            invariant
                i <= moves@.len(),
                eval_ok(best),
                eval_ok(a),
                eval_ok(b),
                !cut ==> spec_ab_fold(
                    game@,
                    mspec,
                    0,
                    depth as nat,
                    alpha0,
                    beta0,
                    maximizing,
                    best0,
                ) == spec_ab_fold(game@, mspec, i as int, depth as nat, a, b, maximizing, best),
                cut ==> spec_ab_fold(game@, mspec, 0, depth as nat, alpha0, beta0, maximizing, best0)
                    == best,
            decreases moves@.len() - i,
        {
            let mv = &moves[i];
            proof {
                assert(mspec.contains(mv@)) by {
                    assert(mspec[i as int] == mv@);
                }
            }
            let (moved, next) = apply_search_move(game, mv);
            if moved {
                let e = Self::alphabeta(&next, depth - 1, a, b, !maximizing);
                if maximizing {
                    if eval_lt(&best, &e) {
                        best = e;
                    }
                    if eval_lt(&a, &e) {
                        a = e;
                    }
                    if !eval_lt(&a, &b) {
                        cut = true;
                    }
                } else {
                    if eval_lt(&e, &best) {
                        best = e;
                    }
                    if eval_lt(&e, &b) {
                        b = e;
                    }
                    if !eval_lt(&a, &b) {
                        cut = true;
                    }
                }
            }
            i += 1;
        }
        best
    }

    /// The minimax decision for the active player, specified exactly
    /// by `spec_minimax_decision`: the same state and depth always
    /// yield the same move.
    #[verifier::rlimit(100)]
    pub fn decide(&mut self, game: &Quoridor) -> (r: Option<String>)
        requires
            game.wf(),
        ensures
            r matches Some(s) ==> move_is_legal(game, s@),
            spec_legal_moves(game@, game@.active).len() > 0 ==> r is Some,
            ({
                let sp = spec_try_opening(
                    game@,
                    old(self).base.opening_moves@.map_values(|s: String| s@),
                    old(self).base.move_counter,
                );
                &&& final(self).base.move_counter == sp.1
                &&& final(self).base.opening_moves == old(self).base.opening_moves
                &&& final(self).base.name == old(self).base.name
                &&& final(self).depth == old(self).depth
                &&& (match sp.0 {
                    Some(mv) => r matches Some(s) && s@ == mv,
                    None => (match r {
                        Some(s) => spec_minimax_decision(
                            game@,
                            (if old(self).depth == 0 {
                                1
                            } else {
                                old(self).depth
                            }) as nat,
                        ) == Some(s@),
                        None => spec_minimax_decision(
                            game@,
                            (if old(self).depth == 0 {
                                1
                            } else {
                                old(self).depth
                            }) as nat,
                        ) is None,
                    }),
                })
            }),
    {
        if let Some(mv) = self.base.try_opening_move(game) {
            return Some(mv);
        }
        let depth = if self.depth == 0 {
            1
        } else {
            self.depth
        };
        let player = game.active_player();
        let legal_pawn_moves = game.get_legal_moves(player);
        let ghost pawnspec = spec_legal_moves(game@, game@.active);
        let mut i: usize = 0;
        #[verifier::loop_isolation(false)]
        while i < legal_pawn_moves.len()
            invariant
                i <= legal_pawn_moves@.len(),
                spec_first_winning(game@, pawnspec, 0) == spec_first_winning(
                    game@,
                    pawnspec,
                    i as int,
                ),
            decreases legal_pawn_moves@.len() - i,
        {
            let mv = &legal_pawn_moves[i];
            if game.win_check(mv.as_str()) {
                proof {
                    lemma_pawn_elem_legal(game, i as int);
                }
                return Some(mv.clone());
            }
            i += 1;
        }
        let all = crate::strategy::all_legal_moves(game);
        if all.len() == 0 {
            return None;
        }
        let ghost mspec = spec_all_moves(game@);
        let mut best_move: Option<String> = None;
        let mut best_score: Eval = Eval::NegInf;
        let mut j: usize = 0;
        #[verifier::loop_isolation(false)]
        while j < all.len()
            invariant
                j <= all@.len(),
                eval_ok(best_score),
                (match best_move {
                    Some(s) => move_is_legal(game, s@),
                    None => true,
                }),
                spec_root_fold(game@, mspec, 0, (depth - 1) as nat, Eval::NegInf, None)
                    == spec_root_fold(
                    game@,
                    mspec,
                    j as int,
                    (depth - 1) as nat,
                    best_score,
                    match best_move {
                        Some(s) => Some(s@),
                        None => None,
                    },
                ),
            decreases all@.len() - j,
        {
            let mv = &all[j];
            proof {
                assert(mspec.contains(mv@)) by {
                    assert(mspec[j as int] == mv@);
                }
            }
            let (moved, next) = apply_search_move(game, mv);
            if moved {
                let score = Self::alphabeta(&next, depth - 1, Eval::NegInf, Eval::PosInf, false);
                if eval_lt(&best_score, &score) {
                    best_score = score;
                    proof {
                        lemma_concat_elem_legal(game, j as int);
                    }
                    best_move = Some(mv.clone());
                }
            }
            j += 1;
        }
        if best_move.is_none() {
            if legal_pawn_moves.len() > 0 {
                proof {
                    lemma_pawn_elem_legal(game, 0);
                }
                best_move = Some(legal_pawn_moves[0].clone());
            } else {
                let legal_walls = game.get_legal_walls(player);
                if legal_walls.len() > 0 {
                    proof {
                        crate::strategy::lemma_wall_elem_legal(game, 0);
                    }
                    best_move = Some(legal_walls[0].clone());
                }
            }
        }
        best_move
    }
}

impl crate::strategy::Strategy for MinimaxStrategy {
    fn name(&self) -> String {
        self.strategy_name()
    }

    fn choose_move(&mut self, game: &Quoridor) -> (r: Option<String>) {
        self.decide(game)
    }
}

} // verus!
