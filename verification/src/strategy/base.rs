//! The shared base of every strategy: its display name and the
//! opening-book playback state.

use vstd::prelude::*;
use crate::board::{Quoridor, spec_legal_moves, spec_legal_walls};
use crate::strategy::move_is_legal;
use crate::textparse::str_eq;

verus! {

/// A scripted opening move is consumed exactly when the counter has
/// not run out; it is returned only while it is currently legal, and
/// skipped for good otherwise.
pub open spec fn spec_try_opening(
    m: crate::model::GameModel,
    moves: Seq<Seq<char>>,
    counter: usize,
) -> (Option<Seq<char>>, usize) {
    if counter < moves.len() {
        let mv = moves[counter as int];
        if spec_legal_moves(m, m.active).contains(mv) || spec_legal_walls(m, m.active).contains(
            mv,
        ) {
            (Some(mv), ((counter + 1) as usize))
        } else {
            (None, ((counter + 1) as usize))
        }
    } else {
        (None, counter)
    }
}

/// The full strategy name: the base name, joined to the opening name
/// when an opening is actually scripted.
pub open spec fn spec_strategy_name(
    base: Seq<char>,
    opening: Seq<char>,
    moves: Seq<Seq<char>>,
) -> Seq<char> {
    if opening.len() == 0 || opening == "No Opening"@ || moves.len() == 0 {
        base
    } else {
        base + "-"@ + opening
    }
}

/// The state shared by all strategies: the display name, the scripted
/// opening moves, and how many of them have been consumed.
pub struct QuoridorStrategy {
    /// The display name.
    pub name: String,
    /// The scripted opening moves, in play order.
    pub opening_moves: Vec<String>,
    /// How many scripted moves have been consumed (played or skipped).
    pub move_counter: usize,
}

impl QuoridorStrategy {
    /// Creates the base state; the name carries the opening name only
    /// when the opening scripts at least one move.
    pub fn new(base_name: &str, opening_name: &str, opening_moves: Vec<String>) -> (r:
        QuoridorStrategy)
        ensures
            r.name@ == spec_strategy_name(
                base_name@,
                opening_name@,
                opening_moves@.map_values(|s: String| s@),
            ),
            r.opening_moves == opening_moves,
            r.move_counter == 0,
    {
        proof {
            reveal_strlit("No Opening");
            reveal_strlit("");
        }
        let use_plain = opening_name.unicode_len() == 0 || str_eq(opening_name, "No Opening")
            || opening_moves.len() == 0;
        let name = if use_plain {
            String::from_str(base_name)
        } else {
            String::from_str(base_name).concat("-").concat(opening_name)
        };
        QuoridorStrategy { name, opening_moves, move_counter: 0 }
    }

    /// Hands out the next scripted move while it is legal; an illegal
    /// scripted move is skipped permanently and play falls through to
    /// the strategy's own algorithm.
    pub fn try_opening_move(&mut self, game: &Quoridor) -> (r: Option<String>)
        requires
            game.wf(),
        ensures
            final(self).name == old(self).name,
            final(self).opening_moves == old(self).opening_moves,
            ({
                let sp = spec_try_opening(
                    game@,
                    old(self).opening_moves@.map_values(|s: String| s@),
                    old(self).move_counter,
                );
                &&& final(self).move_counter == sp.1
                &&& (match r {
                    Some(s) => sp.0 == Some(s@),
                    None => sp.0 is None,
                })
            }),
            r matches Some(s) ==> move_is_legal(game, s@),
    {
        if self.move_counter >= self.opening_moves.len() {
            return None;
        }
        let mv = self.opening_moves[self.move_counter].clone();
        let legal_pawn = game.get_legal_moves(game.active_player());
        let legal_walls = game.get_legal_walls(game.active_player());
        let mut found = false;
        let mut i: usize = 0;
        #[verifier::loop_isolation(false)]
        while i < legal_pawn.len()
            invariant
                i <= legal_pawn@.len(),
                found <==> exists|j: int| 0 <= j < i && #[trigger] legal_pawn@[j]@ == mv@,
            decreases legal_pawn@.len() - i,
        {
            if legal_pawn[i].eq(&mv) {
                found = true;
            }
            i += 1;
        }
        let mut j: usize = 0;
        #[verifier::loop_isolation(false)]
        while j < legal_walls.len()
            invariant
                j <= legal_walls@.len(),
                found <==> (exists|k: int|
                    0 <= k < legal_pawn@.len() && #[trigger] legal_pawn@[k]@ == mv@) || (exists|
                    k: int,
                |
                    0 <= k < j && #[trigger] legal_walls@[k]@ == mv@),
            decreases legal_walls@.len() - j,
        {
            if legal_walls[j].eq(&mv) {
                found = true;
            }
            j += 1;
        }
        proof {
            let moves = spec_legal_moves(game@, game@.active);
            let walls = spec_legal_walls(game@, game@.active);
            if moves.contains(mv@) {
                let k = choose|k: int| 0 <= k < moves.len() && moves[k] == mv@;
                assert(legal_pawn@.map_values(|s: String| s@)[k] == mv@);
                assert(legal_pawn@[k]@ == mv@);
            }
            if walls.contains(mv@) {
                let k = choose|k: int| 0 <= k < walls.len() && walls[k] == mv@;
                assert(legal_walls@.map_values(|s: String| s@)[k] == mv@);
                assert(legal_walls@[k]@ == mv@);
            }
            if found {
                if exists|k: int| 0 <= k < legal_pawn@.len() && #[trigger] legal_pawn@[k]@ == mv@ {
                    let k = choose|k: int|
                        0 <= k < legal_pawn@.len() && #[trigger] legal_pawn@[k]@ == mv@;
                    assert(legal_pawn@.map_values(|s: String| s@)[k] == mv@);
                    assert(moves.contains(mv@));
                } else {
                    let k = choose|k: int|
                        0 <= k < legal_walls@.len() && #[trigger] legal_walls@[k]@ == mv@;
                    assert(legal_walls@.map_values(|s: String| s@)[k] == mv@);
                    assert(walls.contains(mv@));
                }
            }
            assert(old(self).opening_moves@.map_values(|s: String| s@)[old(self).move_counter as int]
                == mv@);
        }
        self.move_counter += 1;
        if found {
            Some(mv)
        } else {
            None
        }
    }

    /// Rewinds the opening playback to the first scripted move.
    pub fn reset(&mut self)
        ensures
            final(self).name == old(self).name,
            final(self).opening_moves == old(self).opening_moves,
            final(self).move_counter == 0,
    {
        self.move_counter = 0;
    }
}

} // verus!
