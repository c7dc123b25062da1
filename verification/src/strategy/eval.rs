//! The position evaluation shared by the minimax and annealing
//! strategies: a fixed linear combination of the distance difference,
//! a reciprocal term for the reference player's progress, and a
//! penalty for the opponent's progress.  The value is held as an
//! exact rational (scaled by ten thousand) so comparisons are exact,
//! with two infinities for decided positions.

use vstd::prelude::*;
use crate::board::{Quoridor, spec_moves_to_next_row};
use crate::model::{GameModel, spec_row_distance};
use crate::player::Player;

verus! {

/// An evaluation: minus infinity, an exact rational, or plus
/// infinity.  Higher is better for the first player.
#[derive(Debug, Clone, Copy, PartialEq, Eq, Structural)]
pub enum Eval {
    /// Decided against the first player.
    NegInf,
    /// A finite value `num / den`, scaled by ten thousand.
    Fin { num: i64, den: i64 },
    /// Decided for the first player.
    PosInf,
}

/// A finite evaluation keeps its numerator and denominator small
/// enough that comparisons cannot overflow.
pub open spec fn eval_ok(e: Eval) -> bool {
    match e {
        Eval::Fin { num, den } => 1 <= den <= 1001 && -8000000000 <= num <= 8000000000,
        _ => true,
    }
}

/// The order on evaluations; finite values compare as rationals.
pub open spec fn spec_eval_le(a: Eval, b: Eval) -> bool {
    match (a, b) {
        (Eval::NegInf, _) => true,
        (_, Eval::NegInf) => false,
        (_, Eval::PosInf) => true,
        (Eval::PosInf, _) => false,
        (Eval::Fin { num: an, den: ad }, Eval::Fin { num: bn, den: bd }) => an * bd <= bn * ad,
    }
}

/// The strict order on evaluations.
pub open spec fn spec_eval_lt(a: Eval, b: Eval) -> bool {
    !spec_eval_le(b, a)
}

/// The larger of two evaluations; ties keep the first.
pub open spec fn spec_eval_max(a: Eval, b: Eval) -> Eval {
    if spec_eval_lt(a, b) {
        b
    } else {
        a
    }
}

/// The smaller of two evaluations; ties keep the first.
pub open spec fn spec_eval_min(a: Eval, b: Eval) -> Eval {
    if spec_eval_lt(b, a) {
        b
    } else {
        a
    }
}

/// A distance term, capped at the unreachable sentinel.
pub open spec fn spec_capped(d: int) -> int {
    if d > 100 {
        100
    } else {
        d
    }
}

/// The evaluation of a position, from the first player's perspective:
/// `0.6001 * (d2 - d1) + 14.45 * g - 6.52 * m2`, scaled by ten
/// thousand and held exactly, where `d1`, `d2` are the players' goal
/// distances, `m2` the opponent's distance to its next row, and `g`
/// rewards the first player's progress: 100 on its goal row, else the
/// reciprocal `1 / (m1 + 0.1)`.
pub open spec fn spec_evaluate(m: GameModel) -> Eval {
    let d1 = spec_capped(spec_row_distance(m.edges(), m.pawn1, 0));
    let d2 = spec_capped(spec_row_distance(m.edges(), m.pawn2, ((m.size - 1) as usize)));
    let m1 = spec_capped(spec_moves_to_next_row(m, Player::Player1));
    let m2 = spec_capped(spec_moves_to_next_row(m, Player::Player2));
    let a = 6001 * (d2 - d1) - 65200 * m2;
    if m1 == 0 {
        Eval::Fin { num: (a + 14450000) as i64, den: 1 }
    } else {
        Eval::Fin { num: (a * (10 * m1 + 1) + 1445000) as i64, den: (10 * m1 + 1) as i64 }
    }
}

/// Compares two evaluations.
pub fn eval_le(a: &Eval, b: &Eval) -> (r: bool)
    requires
        eval_ok(*a),
        eval_ok(*b),
    ensures
        r == spec_eval_le(*a, *b),
{
    match (a, b) {
        (Eval::NegInf, _) => true,
        (_, Eval::NegInf) => false,
        (_, Eval::PosInf) => true,
        (Eval::PosInf, _) => false,
        (Eval::Fin { num: an, den: ad }, Eval::Fin { num: bn, den: bd }) => {
            proof {
                assert((*an as int) * (*bd as int) <= 8000000000int * 1001 && (*an as int) * (
                *bd as int) >= -8000000000int * 1001) by (nonlinear_arith)
                    requires
                        -8000000000 <= *an <= 8000000000,
                        1 <= *bd <= 1001,
                ;
                assert((*bn as int) * (*ad as int) <= 8000000000int * 1001 && (*bn as int) * (
                *ad as int) >= -8000000000int * 1001) by (nonlinear_arith)
                    requires
                        -8000000000 <= *bn <= 8000000000,
                        1 <= *ad <= 1001,
                ;
            }
            (*an as i128) * (*bd as i128) <= (*bn as i128) * (*ad as i128)
        },
    }
}

/// Compares two evaluations strictly.
pub fn eval_lt(a: &Eval, b: &Eval) -> (r: bool)
    requires
        eval_ok(*a),
        eval_ok(*b),
    ensures
        r == spec_eval_lt(*a, *b),
{
    !eval_le(b, a)
}

/// Evaluates a position exactly.
pub fn evaluate_position(game: &Quoridor) -> (r: Eval)
    requires
        game.wf(),
    ensures
        r == spec_evaluate(game@),
        eval_ok(r),
{
    let d1r = game.distance_to_goal(Player::Player1);
    let d1: i64 = if d1r > 100 {
        100
    } else {
        d1r as i64
    };
    let d2r = game.distance_to_goal(Player::Player2);
    let d2: i64 = if d2r > 100 {
        100
    } else {
        d2r as i64
    };
    let m1r = game.moves_to_next_row(Player::Player1);
    let m1: i64 = if m1r > 100 {
        100
    } else {
        m1r as i64
    };
    let m2r = game.moves_to_next_row(Player::Player2);
    let m2: i64 = if m2r > 100 {
        100
    } else {
        m2r as i64
    };
    let a: i64 = 6001 * (d2 - d1) - 65200 * m2;
    proof {
        assert(a * (10 * m1 + 1) <= 7200000int * 1001 && a * (10 * m1 + 1) >= -7200000int * 1001)
            by (nonlinear_arith)
            requires
                -7200000 <= a <= 7200000,
                1 <= 10 * m1 + 1 <= 1001,
        ;
    }
    if m1 == 0 {
        Eval::Fin { num: a + 14450000, den: 1 }
    } else {
        Eval::Fin { num: a * (10 * m1 + 1) + 1445000, den: 10 * m1 + 1 }
    }
}

} // verus!
