//! The two-level simulated-annealing strategy: an outer loop proposes
//! a move, the opponent answers with its best single reply, an inner
//! loop looks for an acceptable follow-up, and worse positions are
//! accepted with probability `exp(delta / temperature)` under linearly
//! cooling temperatures.

use vstd::prelude::*;
use crate::board::{Quoridor, spec_legal_moves};
use crate::model::GameModel;
use crate::randsrc::{rng_below, rng_from_seed};
use crate::strategy::base::{QuoridorStrategy, spec_try_opening};
use crate::strategy::eval::{
    Eval, eval_lt, eval_ok, evaluate_position, spec_eval_lt, spec_evaluate,
};
use crate::strategy::minimax::spec_first_winning;
use crate::strategy::{
    all_legal_moves, apply_search_move, lemma_concat_elem_legal, lemma_pawn_elem_legal,
    move_is_legal, spec_all_moves, spec_apply_search_move,
};

verus! {

/// The exhaustive one-ply reply search, folded over the move list from
/// index `i`: the first strictly lower evaluation takes the slot.
pub open spec fn spec_reply_fold(
    m: GameModel,
    moves: Seq<Seq<char>>,
    i: int,
    best_score: Eval,
    best: Option<Seq<char>>,
) -> Option<Seq<char>>
    decreases (if i < moves.len() { moves.len() - i } else { 0int }),
{
    if i < 0 || i >= moves.len() {
        best
    } else {
        let step = spec_apply_search_move(m, moves[i]);
        if !step.0 {
            spec_reply_fold(m, moves, i + 1, best_score, best)
        } else {
            let e = spec_evaluate(step.1);
            if spec_eval_lt(e, best_score) {
                spec_reply_fold(m, moves, i + 1, e, Some(moves[i]))
            } else {
                spec_reply_fold(m, moves, i + 1, best_score, best)
            }
        }
    }
}

/// The active player's evaluation-minimizing single move: the legal
/// move whose resulting position evaluates lowest, ties keeping the
/// first found.
pub open spec fn spec_opponent_best(m: GameModel) -> Option<Seq<char>> {
    spec_reply_fold(m, spec_all_moves(m), 0, Eval::PosInf, None)
}

/// The two-level annealing strategy.
pub struct SimulatedAnnealingStrategy {
    /// The shared name and opening-book state.
    pub base: QuoridorStrategy,
    /// The outer (move-proposing) iteration cap.
    pub max_global_iterations: usize,
    /// The inner (follow-up) iteration cap.
    pub max_local_iterations: usize,
    /// The random source.
    pub rng: rand::rngs::StdRng,
}

impl SimulatedAnnealingStrategy {
    /// Creates the strategy with the standard iteration caps.
    pub fn new(opening_name: &str, opening_moves: Vec<String>, seed: u64) -> (r:
        SimulatedAnnealingStrategy)
        ensures
            r.base.move_counter == 0,
            r.max_global_iterations == 500,
            r.max_local_iterations == 500,
    {
        SimulatedAnnealingStrategy {
            base: QuoridorStrategy::new("SimulatedAnnealing", opening_name, opening_moves),
            max_global_iterations: 500,
            max_local_iterations: 500,
            rng: rng_from_seed(seed),
        }
    }

    /// Creates the strategy with explicit iteration caps.
    pub fn new_with_limits(
        opening_name: &str,
        opening_moves: Vec<String>,
        max_global_iterations: usize,
        max_local_iterations: usize,
        seed: u64,
    ) -> (r: SimulatedAnnealingStrategy)
        ensures
            r.base.move_counter == 0,
            r.max_global_iterations == max_global_iterations,
            r.max_local_iterations == max_local_iterations,
    {
        SimulatedAnnealingStrategy {
            base: QuoridorStrategy::new("SimulatedAnnealing", opening_name, opening_moves),
            max_global_iterations,
            max_local_iterations,
            rng: rng_from_seed(seed),
        }
    }

    /// The strategy's display name.
    pub fn strategy_name(&self) -> (r: String)
        ensures
            r == self.base.name,
    {
        self.base.name.clone()
    }

    /// `exp(-x)` in millionths, for `x` in millionths: a fixed-point
    /// approximation used only for acceptance draws.
    fn exp_neg_scaled(x: u64) -> (r: u64)
        ensures
            r <= 1000000,
    {
        if x >= 30000000 {
            return 0;
        }
        let k = x / 1000000;
        let f = x % 1000000;
        let mut r: u64 = 1000000;
        let mut i: u64 = 0;
        #[verifier::loop_isolation(false)]
        while i < k
            invariant
                r <= 1000000,
                i <= k,
            decreases k - i,
        {
            r = ((r as u128 * 367879u128) / 1000000u128) as u64;
            i += 1;
        }
        proof {
            assert((f as u128) * (f as u128) < 1000000000000u128) by (nonlinear_arith)
                requires
                    f < 1000000,
            ;
        }
        let fsq: u128 = (f as u128) * (f as u128) / 2000000u128;
        let fsq_c: u64 = if fsq > 500000 {
            500000
        } else {
            fsq as u64
        };
        let term: u64 = 1000000 - f + fsq_c;
        let term_c: u64 = if term > 1000000 {
            1000000
        } else {
            term
        };
        proof {
            assert((r as u128) * (term_c as u128) <= 1000000000000u128) by (nonlinear_arith)
                requires
                    r <= 1000000,
                    term_c <= 1000000,
            ;
        }
        ((r as u128 * term_c as u128) / 1000000u128) as u64
    }

    /// One acceptance draw for a non-improving step: accepts with
    /// probability `exp(delta / temperature)`, the temperature being
    /// `t_num / t_den`.  Evaluations carry a scale of ten thousand,
    /// which is divided back out of the exponent here.
    fn accept_worse(
        rng: &mut rand::rngs::StdRng,
        s_new: &Eval,
        s_ref: &Eval,
        t_num: usize,
        t_den: usize,
    ) -> (r: bool)
        requires
            eval_ok(*s_new),
            eval_ok(*s_ref),
            1 <= t_num <= t_den <= 100000,
    {
        let x_fp: u64 = match (s_new, s_ref) {
            (Eval::Fin { num: n2, den: d2 }, Eval::Fin { num: n1, den: d1 }) => {
                proof {
                    assert((*n1) * (*d2) <= 8000000000i64 as int * 1001 && (*n1) * (*d2)
                        >= -8000000000i64 as int * 1001) by (nonlinear_arith)
                        requires
                            -8000000000 <= *n1 <= 8000000000,
                            1 <= *d2 <= 1001,
                    ;
                    assert((*n2) * (*d1) <= 8000000000i64 as int * 1001 && (*n2) * (*d1)
                        >= -8000000000i64 as int * 1001) by (nonlinear_arith)
                        requires
                            -8000000000 <= *n2 <= 8000000000,
                            1 <= *d1 <= 1001,
                    ;
                }
                let a1: i128 = (*n1 as i128) * (*d2 as i128);
                let a2: i128 = (*n2 as i128) * (*d1 as i128);
                let diff: i128 = a1 - a2;
                if diff <= 0 {
                    0
                } else {
                    proof {
                        assert((*d1 as int) * (*d2 as int) <= 1001 * 1001 && (*d1 as int) * (
                        *d2 as int) >= 1) by (nonlinear_arith)
                            requires
                                1 <= *d1 <= 1001,
                                1 <= *d2 <= 1001,
                        ;
                        assert((*d1 as int) * (*d2 as int) * (t_num as int) <= 1001 * 1001
                            * 100000 && (*d1 as int) * (*d2 as int) * (t_num as int) >= 1) by (nonlinear_arith)
                            requires
                                1 <= (*d1 as int) * (*d2 as int) <= 1001 * 1001,
                                1 <= t_num <= 100000,
                        ;
                        assert(diff * (t_den as int) <= 17000000000000int * 100000 && diff * (
                        t_den as int) > 0) by (nonlinear_arith)
                            requires
                                0 < diff <= 17000000000000int,
                                1 <= t_den <= 100000,
                        ;
                    }
                    let num: i128 = diff * (t_den as i128);
                    let den: i128 = (*d1 as i128) * (*d2 as i128) * (t_num as i128);
                    let q: i128 = num / den;
                    let scaled: i128 = if q >= 400000 {
                        40000000
                    } else {
                        num * 100i128 / den
                    };
                    if scaled > 40000000 {
                        40000000
                    } else {
                        scaled as u64
                    }
                }
            },
            _ => 0,
        };
        let p = Self::exp_neg_scaled(x_fp);
        let u = rng_below(rng, 1000000);
        (u as u64) < p
    }

    /// The opponent's best single reply, specified exactly by
    /// `spec_opponent_best`: the move whose resulting position
    /// evaluates lowest.
    fn select_opponent_best_move(game: &Quoridor) -> (r: Option<String>)
        requires
            game.wf(),
        ensures
            r matches Some(s) ==> spec_all_moves(game@).contains(s@),
            (match r {
                Some(s) => spec_opponent_best(game@) == Some(s@),
                None => spec_opponent_best(game@) is None,
            }),
    {
        let all = all_legal_moves(game);
        let ghost mspec = spec_all_moves(game@);
        if all.len() == 0 {
            return None;
        }
        let mut best: Option<String> = None;
        let mut min_score = Eval::PosInf;
        let mut i: usize = 0;
        #[verifier::loop_isolation(false)]
        while i < all.len()
            invariant
                i <= all@.len(),
                eval_ok(min_score),
                best matches Some(s) ==> spec_all_moves(game@).contains(s@),
                spec_reply_fold(game@, mspec, 0, Eval::PosInf, None) == spec_reply_fold(
                    game@,
                    mspec,
                    i as int,
                    min_score,
                    match best {
                        Some(s) => Some(s@),
                        None => None,
                    },
                ),
            decreases all@.len() - i,
        {
            let mv = &all[i];
            proof {
                assert(spec_all_moves(game@)[i as int] == mv@);
                assert(spec_all_moves(game@).contains(mv@));
            }
            let (moved, next) = apply_search_move(game, mv);
            if moved {
                let score = evaluate_position(&next);
                if eval_lt(&score, &min_score) {
                    min_score = score;
                    best = Some(mv.clone());
                }
            }
            i += 1;
        }
        best
    }

    /// The two annealing loops: outer proposals judged against the
    /// opponent's best reply, inner follow-ups with probabilistic
    /// acceptance; `None` when no proposal was accepted within the
    /// caps.
    #[verifier::rlimit(100)]
    fn anneal_search(
        &mut self,
        game: &Quoridor,
        initial_score: Eval,
        all_player_moves: &Vec<String>,
        mg: usize,
        ml: usize,
    ) -> (r: Option<String>)
        requires
            game.wf(),
            eval_ok(initial_score),
            all_player_moves@.map_values(|s: String| s@) == spec_all_moves(game@),
            all_player_moves@.len() > 0,
            1 <= mg <= 100000,
            1 <= ml <= 100000,
        ensures
            r matches Some(s) ==> move_is_legal(game, s@),
            final(self).base == old(self).base,
            final(self).max_global_iterations == old(self).max_global_iterations,
            final(self).max_local_iterations == old(self).max_local_iterations,
    {
        let mut best_overall: Option<String> = None;
        let mut t1: usize = 1;
        #[verifier::loop_isolation(false)]
        while t1 <= mg && best_overall.is_none()
            invariant
                1 <= t1 <= mg + 1,
                best_overall matches Some(s) ==> move_is_legal(game, s@),
                self.base == old(self).base,
                self.max_global_iterations == old(self).max_global_iterations,
                self.max_local_iterations == old(self).max_local_iterations,
            decreases mg + 1 - t1,
        {
            let k = rng_below(&mut self.rng, all_player_moves.len());
            let candidate = &all_player_moves[k];
            proof {
                assert(spec_all_moves(game@)[k as int] == candidate@);
                assert(spec_all_moves(game@).contains(candidate@));
            }
            let (moved1, game_after_first) = apply_search_move(game, candidate);
            if moved1 {
                match Self::select_opponent_best_move(&game_after_first) {
                    None => {
                        proof {
                            lemma_concat_elem_legal(game, k as int);
                        }
                        best_overall = Some(candidate.clone());
                    },
                    Some(response) => {
                        let (moved2, game_after_opponent) = apply_search_move(
                            &game_after_first,
                            &response,
                        );
                        if moved2 {
                            let score_after_opponent = evaluate_position(&game_after_opponent);
                            let second_moves = all_legal_moves(&game_after_opponent);
                            if second_moves.len() > 0 {
                                let mut accepted_second = false;
                                let mut t2: usize = 1;
                                #[verifier::loop_isolation(false)]
                                while t2 <= ml && !accepted_second
                                    invariant
                                        1 <= t2 <= ml + 1,
                                        game_after_opponent.wf(),
                                        second_moves@.map_values(|s: String| s@) == spec_all_moves(
                                            game_after_opponent@,
                                        ),
                                        second_moves@.len() > 0,
                                        self.base == old(self).base,
                                        self.max_global_iterations == old(
                                            self,
                                        ).max_global_iterations,
                                        self.max_local_iterations == old(
                                            self,
                                        ).max_local_iterations,
                                    decreases ml + 1 - t2,
                                {
                                    let k2 = rng_below(&mut self.rng, second_moves.len());
                                    let cand2 = &second_moves[k2];
                                    proof {
                                        assert(spec_all_moves(game_after_opponent@)[k2 as int]
                                            == cand2@);
                                        assert(spec_all_moves(game_after_opponent@).contains(
                                            cand2@,
                                        ));
                                    }
                                    let (moved3, game_after_second) = apply_search_move(
                                        &game_after_opponent,
                                        cand2,
                                    );
                                    if moved3 {
                                        let score_after_second = evaluate_position(
                                            &game_after_second,
                                        );
                                        if eval_lt(&score_after_opponent, &score_after_second) {
                                            accepted_second = true;
                                        } else if Self::accept_worse(
                                            &mut self.rng,
                                            &score_after_second,
                                            &score_after_opponent,
                                            ml - t2 + 1,
                                            ml,
                                        ) {
                                            accepted_second = true;
                                        }
                                    }
                                    t2 += 1;
                                }
                                if accepted_second {
                                    let score_after_first = evaluate_position(&game_after_first);
                                    if eval_lt(&initial_score, &score_after_first) {
                                        proof {
                                            lemma_concat_elem_legal(game, k as int);
                                        }
                                        best_overall = Some(candidate.clone());
                                    } else if Self::accept_worse(
                                        &mut self.rng,
                                        &score_after_first,
                                        &initial_score,
                                        mg - t1 + 1,
                                        mg,
                                    ) {
                                        proof {
                                            lemma_concat_elem_legal(game, k as int);
                                        }
                                        best_overall = Some(candidate.clone());
                                    }
                                }
                            }
                        }
                    },
                }
            }
            t1 += 1;
        }
        best_overall
    }

    /// The annealing decision: the first winning pawn move at once;
    /// otherwise outer proposals against the opponent's best reply,
    /// inner follow-ups, and probabilistic acceptance; a uniformly
    /// random legal move when no proposal was accepted.  Forfeits
    /// exactly when no legal move exists.
    #[verifier::rlimit(100)]
    pub fn decide(&mut self, game: &Quoridor) -> (r: Option<String>)
        requires
            game.wf(),
        ensures
            r matches Some(s) ==> move_is_legal(game, s@),
            spec_legal_moves(game@, game@.active).len() > 0 ==> r is Some,
            ({
                let sp = spec_try_opening(
                    game@,
                    old(self).base.opening_moves@.map_values(|s: String| s@),
                    old(self).base.move_counter,
                );
                &&& final(self).base.move_counter == sp.1
                &&& final(self).base.opening_moves == old(self).base.opening_moves
                &&& final(self).base.name == old(self).base.name
                &&& final(self).max_global_iterations == old(self).max_global_iterations
                &&& final(self).max_local_iterations == old(self).max_local_iterations
                &&& (match sp.0 {
                    Some(mv) => r matches Some(s) && s@ == mv,
                    None => {
                        &&& (r is None <==> spec_all_moves(game@).len() == 0)
                        &&& (match spec_first_winning(
                            game@,
                            spec_legal_moves(game@, game@.active),
                            0,
                        ) {
                            Some(wmv) => r matches Some(s) && s@ == wmv,
                            None => true,
                        })
                    },
                })
            }),
    {
        if let Some(mv) = self.base.try_opening_move(game) {
            return Some(mv);
        }
        let mg: usize = if self.max_global_iterations == 0 {
            1
        } else if self.max_global_iterations > 100000 {
            100000
        } else {
            self.max_global_iterations
        };
        let ml: usize = if self.max_local_iterations == 0 {
            1
        } else if self.max_local_iterations > 100000 {
            100000
        } else {
            self.max_local_iterations
        };
        let initial_score = evaluate_position(game);
        let player_pawn_moves = game.get_legal_moves(game.active_player());
        let ghost pawnspec = spec_legal_moves(game@, game@.active);
        let mut w: usize = 0;
        #[verifier::loop_isolation(false)]
        while w < player_pawn_moves.len()
            invariant
                w <= player_pawn_moves@.len(),
                spec_first_winning(game@, pawnspec, 0) == spec_first_winning(
                    game@,
                    pawnspec,
                    w as int,
                ),
            decreases player_pawn_moves@.len() - w,
        {
            let mv = &player_pawn_moves[w];
            proof {
                assert(pawnspec[w as int] == mv@);
            }
            if game.win_check(mv.as_str()) {
                proof {
                    lemma_pawn_elem_legal(game, w as int);
                }
                return Some(mv.clone());
            }
            w += 1;
        }
        let all_player_moves = all_legal_moves(game);
        if all_player_moves.len() == 0 {
            proof {
                assert(all_player_moves@.map_values(|s: String| s@).len() == 0);
            }
            return None;
        }
        let best_overall = self.anneal_search(game, initial_score, &all_player_moves, mg, ml);
        match best_overall {
            Some(mv) => Some(mv),
            None => {
                let k = rng_below(&mut self.rng, all_player_moves.len());
                proof {
                    lemma_concat_elem_legal(game, k as int);
                }
                Some(all_player_moves[k].clone())
            },
        }
    }
}

impl crate::strategy::Strategy for SimulatedAnnealingStrategy {
    fn name(&self) -> String {
        self.strategy_name()
    }

    fn choose_move(&mut self, game: &Quoridor) -> (r: Option<String>) {
        self.decide(game)
    }
}

} // verus!
