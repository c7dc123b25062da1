//! The Quoridor game state: the board graph, the wall sets, the two
//! pawns, and every rule query and mutation.  Each operation is
//! specified against the model in `model`.

use vstd::prelude::*;
use vstd::seq_lib::*;
use vstd::string::StrSliceExecFns;
use crate::boardgraph::{
    BoardGraph, graph_add_edge, graph_clone, graph_contains_edge, graph_edge_set,
    graph_hop_distances, graph_new, graph_path_exists, graph_remove_edge,
};
use crate::errors::GameError;
use crate::model::{
    GameModel, board_edges, edge_in_board, has_path_len, is_dist, is_row_dist, reachable,
    row_reachable, spec_row_dist, spec_row_distance, valid_cell,
};
use crate::notation::{
    Coord, algebraic_to_coord, coord_to_algebraic, spec_all_digits, spec_coord_label,
    spec_dec_digits, spec_decode, spec_digits_val, spec_row_digit, usize_to_string,
};
use crate::player::Player;
use crate::textparse::{first_idx, spec_tokens, spec_trim};

verus! {

/// The strict order walls are rendered in: higher rows first, and
/// within a row lower columns first.
pub open spec fn wall_lt(a: Coord, b: Coord) -> bool {
    a.0 > b.0 || (a.0 == b.0 && a.1 < b.1)
}

/// Strictly sorted in rendering order (so also free of duplicates).
pub open spec fn sorted_walls(s: Seq<Coord>) -> bool {
    forall|i: int, j: int| 0 <= i < j < s.len() ==> wall_lt(#[trigger] s[i], #[trigger] s[j])
}

/// Every anchor lies on the board.
pub open spec fn walls_valid(s: Seq<Coord>, size: usize) -> bool {
    forall|i: int| 0 <= i < s.len() ==> valid_cell(size, #[trigger] s[i])
}

/// Where a new anchor goes in a sorted wall list: before the first
/// entry it precedes; dropped if already present.
pub open spec fn spec_insert_wall(s: Seq<Coord>, w: Coord) -> Seq<Coord>
    decreases s.len(),
{
    if s.len() == 0 {
        seq![w]
    } else if wall_lt(w, s[0]) {
        seq![w] + s
    } else if s[0] == w {
        s
    } else {
        seq![s[0]] + spec_insert_wall(s.drop_first(), w)
    }
}

/// The concatenated cell labels of a wall list.
pub open spec fn spec_wall_labels(ws: Seq<Coord>, size: usize) -> Seq<char>
    decreases ws.len(),
{
    if ws.len() == 0 {
        Seq::<char>::empty()
    } else {
        spec_wall_labels(ws.drop_last(), size) + spec_coord_label(ws.last(), size)
    }
}

/// The serialized state: horizontal walls, vertical walls, the two
/// pawns, the two wall stocks, and the active player's number, the
/// groups separated by slashes.
pub open spec fn spec_render_state(m: GameModel) -> Seq<char> {
    spec_wall_labels(m.hwalls, m.size) + " / "@ + spec_wall_labels(m.vwalls, m.size) + " / "@
        + spec_coord_label(m.pawn1, m.size) + " "@ + spec_coord_label(m.pawn2, m.size) + " / "@
        + spec_dec_digits(m.walls1 as int) + " "@ + spec_dec_digits(m.walls2 as int) + " / "@
        + seq![spec_row_digit(m.active.spec_number() as int)]
}

/// The state of a fresh game: pawns centered on their home rows, full
/// wall stocks, no walls placed, the first player to move.
pub open spec fn spec_new_model(size: usize, walls: usize) -> GameModel {
    let base = GameModel {
        size,
        walls,
        hwalls: Seq::<Coord>::empty(),
        vwalls: Seq::<Coord>::empty(),
        pawn1: (((size - 1) as usize), ((size / 2) as usize)),
        pawn2: (0usize, ((size / 2) as usize)),
        walls1: walls,
        walls2: walls,
        active: Player::Player1,
        state_string: Seq::<char>::empty(),
        previous_state: Seq::<char>::empty(),
        last_move: "None"@,
    };
    GameModel { state_string: spec_render_state(base), ..base }
}

/// The distance feature toward the next rank: 0 on the goal row, else
/// the reported distance to the adjacent row toward the goal.
pub open spec fn spec_moves_to_next_row(m: GameModel, pl: Player) -> int {
    let pawn = m.pawn(pl);
    match pl {
        Player::Player1 => if pawn.0 == 0 {
            0
        } else {
            spec_row_distance(m.edges(), pawn, ((pawn.0 - 1) as usize))
        },
        Player::Player2 => if pawn.0 == m.size - 1 {
            0
        } else {
            spec_row_distance(m.edges(), pawn, ((pawn.0 + 1) as usize))
        },
    }
}

/// Whether a move string names a winning pawn move for the active
/// player: exactly two characters, decodable, on the goal row.
pub open spec fn spec_win_check(m: GameModel, s: Seq<char>) -> bool {
    s.len() == 2 && match spec_decode(s, m.size) {
        Ok(c) => c.0 == m.goal_row(m.active),
        Err(_) => false,
    }
}

/// The four orthogonal step directions, in the order moves are
/// enumerated: up, down, left, right.
pub open spec fn dir_delta(k: int) -> (int, int) {
    if k == 0 {
        (-1, 0)
    } else if k == 1 {
        (1, 0)
    } else if k == 2 {
        (0, -1)
    } else {
        (0, 1)
    }
}

/// The cell one step from `c` in direction `k`, when it stays on the
/// board.
pub open spec fn spec_shift(c: Coord, k: int, size: usize) -> Option<Coord> {
    let nr = c.0 + dir_delta(k).0;
    let nc = c.1 + dir_delta(k).1;
    if 0 <= nr < size && 0 <= nc < size {
        Some((nr as usize, nc as usize))
    } else {
        None
    }
}

/// The diagonal-jump destinations contributed by direction `k2` out of
/// the opponent's cell: its on-board graph neighbors other than the
/// mover's own cell.
pub open spec fn spec_diag_moves_k(m: GameModel, own: Coord, opp: Coord, k2: int) -> Seq<
    Seq<char>,
> {
    match spec_shift(opp, k2, m.size) {
        Some(cell) => if cell != own && m.edges().contains((opp, cell)) {
            seq![spec_coord_label(cell, m.size)]
        } else {
            Seq::<Seq<char>>::empty()
        },
        None => Seq::<Seq<char>>::empty(),
    }
}

/// All diagonal-jump destinations around the opponent.
pub open spec fn spec_diag_moves(m: GameModel, own: Coord, opp: Coord) -> Seq<Seq<char>> {
    spec_diag_moves_k(m, own, opp, 0) + spec_diag_moves_k(m, own, opp, 1) + spec_diag_moves_k(
        m,
        own,
        opp,
        2,
    ) + spec_diag_moves_k(m, own, opp, 3)
}

/// The legal pawn destinations contributed by one step direction: the
/// neighbor itself when free; over an adjacent opponent, the straight
/// jump when its landing edge exists, else the diagonal jumps.
pub open spec fn spec_moves_for_dir(m: GameModel, pl: Player, k: int) -> Seq<Seq<char>> {
    let own = m.pawn(pl);
    let opp = m.pawn(pl.spec_opponent());
    match spec_shift(own, k, m.size) {
        None => Seq::<Seq<char>>::empty(),
        Some(nb) => if !m.edges().contains((own, nb)) {
            Seq::<Seq<char>>::empty()
        } else if nb == opp {
            match spec_shift(nb, k, m.size) {
                Some(land) => if m.edges().contains((opp, land)) {
                    seq![spec_coord_label(land, m.size)]
                } else {
                    spec_diag_moves(m, own, opp)
                },
                None => spec_diag_moves(m, own, opp),
            }
        } else {
            seq![spec_coord_label(nb, m.size)]
        },
    }
}

/// The legal pawn moves of a player, as labels, in enumeration order.
pub open spec fn spec_legal_moves(m: GameModel, pl: Player) -> Seq<Seq<char>> {
    spec_moves_for_dir(m, pl, 0) + spec_moves_for_dir(m, pl, 1) + spec_moves_for_dir(m, pl, 2)
        + spec_moves_for_dir(m, pl, 3)
}

/// The two board edges a wall severs: for a horizontal wall the two
/// vertical steps above its anchor and its right neighbor; for a
/// vertical wall the two horizontal steps at its anchor's row and the
/// row above.  A vertical wall anchored on the top row severs only one
/// edge; a wall whose span would leave the board severs none.
pub open spec fn spec_blocked_edges(w: Coord, o: char, size: usize) -> Option<
    ((Coord, Coord), Option<(Coord, Coord)>),
> {
    if o == 'h' {
        if w.0 > 0 && w.1 + 1 < size {
            Some(
                (
                    ((((w.0 - 1) as usize), w.1), (w.0, w.1)),
                    Some(((((w.0 - 1) as usize), ((w.1 + 1) as usize)), (w.0, ((w.1 + 1) as usize)))),
                ),
            )
        } else {
            None
        }
    } else if o == 'v' {
        if w.0 > 0 && w.1 + 1 < size {
            Some(
                (
                    ((w.0, w.1), (w.0, ((w.1 + 1) as usize))),
                    Some(((((w.0 - 1) as usize), w.1), (((w.0 - 1) as usize), ((w.1 + 1) as usize)))),
                ),
            )
        } else if w.0 == 0 && w.1 + 1 < size {
            Some((((w.0, w.1), (w.0, ((w.1 + 1) as usize))), None))
        } else {
            None
        }
    } else {
        None
    }
}

/// Whether placing the wall would overlap or cross an existing wall:
/// the same anchor, an abutting anchor of the same orientation, or a
/// perpendicular wall at the same junction or the neighbor junction.
pub open spec fn spec_wall_conflict(m: GameModel, w: Coord, o: char) -> bool {
    let h = m.hwalls.to_set();
    let v = m.vwalls.to_set();
    if o == 'h' {
        h.contains(w) || (w.1 > 0 && h.contains((w.0, ((w.1 - 1) as usize)))) || (w.1 + 1 < m.size
            - 1 && h.contains((w.0, ((w.1 + 1) as usize)))) || v.contains(w) || (w.1 + 1 < m.size
            && v.contains((w.0, ((w.1 + 1) as usize))))
    } else {
        v.contains(w) || (w.0 > 1 && v.contains((((w.0 - 1) as usize), w.1))) || (w.0 + 1 < m.size
            && v.contains((((w.0 + 1) as usize), w.1))) || h.contains(w) || (w.0 + 1 < m.size
            && h.contains((((w.0 + 1) as usize), w.1)))
    }
}

/// The adjacency left after severing the wall's edges (in both
/// directions of the relation).
pub open spec fn spec_edges_minus(m: GameModel, w: Coord, o: char) -> Set<(Coord, Coord)> {
    match spec_blocked_edges(w, o, m.size) {
        Some((e1, oe2)) => {
            let s1 = m.edges().remove(e1).remove((e1.1, e1.0));
            match oe2 {
                Some(e2) => s1.remove(e2).remove((e2.1, e2.0)),
                None => s1,
            }
        },
        None => m.edges(),
    }
}

/// Whether both players still reach their goal rows on the given
/// adjacency.
pub open spec fn spec_paths_ok(m: GameModel, edges: Set<(Coord, Coord)>) -> bool {
    row_reachable(edges, m.pawn1, 0) && row_reachable(edges, m.pawn2, ((m.size - 1) as usize))
}

/// Whether the player may place the wall: walls remain, the anchor row
/// leaves room for the two-cell span (so never the top row), the span
/// stays on the board, no overlap or crossing, the severed edges are
/// still present, and afterwards both players keep a path to their
/// goals.  These are exactly the placements the enumeration yields.
#[verifier::opaque]
pub open spec fn spec_wall_ok(m: GameModel, pl: Player, w: Coord, o: char) -> bool {
    m.walls_of(pl) > 0 && w.0 >= 1 && !spec_wall_conflict(m, w, o) && match spec_blocked_edges(
        w,
        o,
        m.size,
    ) {
        Some((e1, oe2)) => m.edges().contains(e1) && (match oe2 {
            Some(e2) => m.edges().contains(e2),
            None => true,
        }) && spec_paths_ok(m, spec_edges_minus(m, w, o)),
        None => false,
    }
}

/// The wall labels the enumeration yields for row `r`, columns below
/// `c`.
pub open spec fn spec_walls_row_upto(m: GameModel, pl: Player, r: int, c: int) -> Seq<Seq<char>>
    decreases c,
{
    if c <= 0 {
        Seq::<Seq<char>>::empty()
    } else {
        spec_walls_row_upto(m, pl, r, c - 1) + spec_wall_entry(m, pl, r, c - 1, 'h')
            + spec_wall_entry(m, pl, r, c - 1, 'v')
    }
}

/// One candidate of the enumeration: its label when it may be placed.
pub open spec fn spec_wall_entry(m: GameModel, pl: Player, r: int, c: int, o: char) -> Seq<
    Seq<char>,
> {
    if 0 <= r < m.size && 0 <= c < m.size && spec_wall_ok(m, pl, ((r as usize), (c as usize)), o) {
        seq![spec_coord_label(((r as usize), (c as usize)), m.size).push(o)]
    } else {
        Seq::<Seq<char>>::empty()
    }
}

/// The wall labels the enumeration yields for rows below `r`.
pub open spec fn spec_walls_upto(m: GameModel, pl: Player, r: int) -> Seq<Seq<char>>
    decreases r,
{
    if r <= 1 {
        Seq::<Seq<char>>::empty()
    } else {
        spec_walls_upto(m, pl, r - 1) + spec_walls_row_upto(m, pl, r - 1, m.size - 1)
    }
}

/// Every wall placement open to the player, as labels, in enumeration
/// order: anchors row by row from row 1, horizontal before vertical.
pub open spec fn spec_legal_walls(m: GameModel, pl: Player) -> Seq<Seq<char>> {
    if m.walls_of(pl) == 0 {
        Seq::<Seq<char>>::empty()
    } else {
        spec_walls_upto(m, pl, m.size as int)
    }
}

/// Folds a run of two-character anchors into a sorted wall list; a
/// trailing odd character is ignored, an undecodable anchor rejects
/// the whole string.
pub open spec fn spec_parse_wall_list(t: Seq<char>, size: usize, acc: Seq<Coord>) -> Option<
    Seq<Coord>,
>
    decreases t.len(),
{
    if t.len() < 2 {
        Some(acc)
    } else {
        match spec_decode(t.subrange(0, 2), size) {
            Err(_) => None,
            Ok(w) => spec_parse_wall_list(
                t.subrange(2, t.len() as int),
                size,
                spec_insert_wall(acc, w),
            ),
        }
    }
}

/// A wall-stock number: the decimal value when the token is one, else
/// the given default.
pub open spec fn spec_parse_usize(t: Seq<char>, default: usize) -> usize {
    if t.len() >= 1 && spec_all_digits(t) && spec_digits_val(t) <= usize::MAX {
        spec_digits_val(t) as usize
    } else {
        default
    }
}

/// What loading a serialized state yields: the state's walls, pawns,
/// stocks and active player on a fresh board, or nothing when the
/// string does not divide into five well-formed groups.
pub open spec fn spec_parse(s: Seq<char>, size: usize, walls: usize) -> Option<GameModel> {
    let i1 = first_idx(s, '/');
    if !(0 <= i1 < s.len()) {
        None
    } else {
        let p0 = s.subrange(0, i1);
        let r1 = s.subrange(i1 + 1, s.len() as int);
        let i2 = first_idx(r1, '/');
        if !(0 <= i2 < r1.len()) {
            None
        } else {
            let p1 = r1.subrange(0, i2);
            let r2 = r1.subrange(i2 + 1, r1.len() as int);
            let i3 = first_idx(r2, '/');
            if !(0 <= i3 < r2.len()) {
                None
            } else {
                let p2 = r2.subrange(0, i3);
                let r3 = r2.subrange(i3 + 1, r2.len() as int);
                let i4 = first_idx(r3, '/');
                if !(0 <= i4 < r3.len()) {
                    None
                } else {
                    let p3 = r3.subrange(0, i4);
                    let p4 = r3.subrange(i4 + 1, r3.len() as int);
                    if first_idx(p4, '/') >= 0 {
                        None
                    } else {
                        spec_parse_groups(
                            spec_trim(p0),
                            spec_trim(p1),
                            spec_trim(p2),
                            spec_trim(p3),
                            spec_trim(p4),
                            size,
                            walls,
                        )
                    }
                }
            }
        }
    }
}

/// Assembles the model from the five trimmed groups.
pub open spec fn spec_parse_groups(
    hw: Seq<char>,
    vw: Seq<char>,
    pw: Seq<char>,
    ww: Seq<char>,
    ap: Seq<char>,
    size: usize,
    walls: usize,
) -> Option<GameModel> {
    match spec_parse_wall_list(hw, size, Seq::<Coord>::empty()) {
        None => None,
        Some(hlist) => match spec_parse_wall_list(vw, size, Seq::<Coord>::empty()) {
            None => None,
            Some(vlist) => {
                let ptoks = spec_tokens(pw);
                if ptoks.len() != 2 {
                    None
                } else {
                    match spec_decode(ptoks[0], size) {
                        Err(_) => None,
                        Ok(p1pos) => match spec_decode(ptoks[1], size) {
                            Err(_) => None,
                            Ok(p2pos) => {
                                let wtoks = spec_tokens(ww);
                                if wtoks.len() != 2 {
                                    None
                                } else {
                                    let w1 = spec_parse_usize(wtoks[0], walls);
                                    let w2 = spec_parse_usize(wtoks[1], walls);
                                    if ap == seq!['1'] || ap == seq!['2'] {
                                        let base = GameModel {
                                            size,
                                            walls,
                                            hwalls: hlist,
                                            vwalls: vlist,
                                            pawn1: p1pos,
                                            pawn2: p2pos,
                                            walls1: w1,
                                            walls2: w2,
                                            active: if ap == seq!['1'] {
                                                Player::Player1
                                            } else {
                                                Player::Player2
                                            },
                                            state_string: Seq::<char>::empty(),
                                            previous_state: Seq::<char>::empty(),
                                            last_move: "None"@,
                                        };
                                        Some(GameModel { state_string: spec_render_state(base), ..base })
                                    } else {
                                        None
                                    }
                                }
                            },
                        },
                    }
                }
            },
        },
    }
}

/// The state after recording a wall: the anchor joins its sorted
/// list; unless the game is still being set up, the turn passes, the
/// stock shrinks, and the bookkeeping strings are refreshed.
pub open spec fn spec_wall_applied(
    m: GameModel,
    w: Coord,
    o: char,
    s: Seq<char>,
    is_init: bool,
) -> GameModel {
    let m1 = if o == 'h' {
        GameModel { hwalls: spec_insert_wall(m.hwalls, w), ..m }
    } else {
        GameModel { vwalls: spec_insert_wall(m.vwalls, w), ..m }
    };
    if is_init {
        m1
    } else {
        let m2 = GameModel {
            previous_state: m.state_string,
            last_move: s,
            walls1: if m.active is Player1 {
                ((m.walls1 - 1) as usize)
            } else {
                m.walls1
            },
            walls2: if m.active is Player2 {
                ((m.walls2 - 1) as usize)
            } else {
                m.walls2
            },
            active: m.active.spec_opponent(),
            ..m1
        };
        GameModel { state_string: spec_render_state(m2), ..m2 }
    }
}

/// What `add_wall` does: whether the move is accepted, and the state
/// that results (unchanged on rejection).
pub open spec fn spec_add_wall(m: GameModel, s: Seq<char>, is_init: bool, check: bool) -> (
    bool,
    GameModel,
) {
    if s.len() < 3 {
        (false, m)
    } else {
        let o = s.last();
        if o != 'h' && o != 'v' {
            (false, m)
        } else {
            match spec_decode(s.drop_last(), m.size) {
                Err(_) => (false, m),
                Ok(w) => if check && !spec_wall_ok(m, m.active, w, o) {
                    (false, m)
                } else {
                    (true, spec_wall_applied(m, w, o, s, is_init))
                },
            }
        }
    }
}

/// The state after a pawn move of the active player.
pub open spec fn spec_pawn_applied(m: GameModel, dest: Coord, s: Seq<char>) -> GameModel {
    let m2 = GameModel {
        pawn1: if m.active is Player1 {
            dest
        } else {
            m.pawn1
        },
        pawn2: if m.active is Player2 {
            dest
        } else {
            m.pawn2
        },
        previous_state: m.state_string,
        last_move: s,
        active: m.active.spec_opponent(),
        ..m
    };
    GameModel { state_string: spec_render_state(m2), ..m2 }
}

/// What `move_pawn` does: whether the move is accepted, and the state
/// that results (unchanged on rejection).
pub open spec fn spec_move_pawn(m: GameModel, s: Seq<char>, check: bool) -> (bool, GameModel) {
    match spec_decode(s, m.size) {
        Err(_) => (false, m),
        Ok(dest) => if check && !spec_legal_moves(m, m.active).contains(s) {
            (false, m)
        } else {
            (true, spec_pawn_applied(m, dest, s))
        },
    }
}

/// A horizontal grid adjacency (independent of walls).
pub open spec fn grid_h_pair(size: usize, pr: (Coord, Coord)) -> bool {
    valid_cell(size, pr.0) && valid_cell(size, pr.1) && pr.0.0 == pr.1.0 && (pr.0.1 + 1 == pr.1.1
        || pr.1.1 + 1 == pr.0.1)
}

/// A vertical grid adjacency (independent of walls).
pub open spec fn grid_v_pair(size: usize, pr: (Coord, Coord)) -> bool {
    valid_cell(size, pr.0) && valid_cell(size, pr.1) && pr.0.1 == pr.1.1 && (pr.0.0 + 1 == pr.1.0
        || pr.1.0 + 1 == pr.0.0)
}

/// The horizontal adjacencies whose leftmost cell precedes `(r, c)`
/// in row-major order.
pub open spec fn h_pairs_before(size: usize, r: int, c: int) -> Set<(Coord, Coord)> {
    Set::new(
        |pr: (Coord, Coord)|
            grid_h_pair(size, pr) && {
                let col = if pr.0.1 <= pr.1.1 {
                    pr.0.1 as int
                } else {
                    pr.1.1 as int
                };
                pr.0.0 < r || (pr.0.0 == r && col < c)
            },
    )
}

/// All horizontal adjacencies, plus the vertical ones whose upper cell
/// precedes `(r, c)` in row-major order.
pub open spec fn hv_pairs_before(size: usize, r: int, c: int) -> Set<(Coord, Coord)> {
    Set::new(
        |pr: (Coord, Coord)|
            grid_h_pair(size, pr) || (grid_v_pair(size, pr) && {
                let row = if pr.0.0 <= pr.1.0 {
                    pr.0.0 as int
                } else {
                    pr.1.0 as int
                };
                row < r || (row == r && pr.0.1 < c)
            }),
    )
}

/// Total trichotomy of the wall rendering order.
pub proof fn lemma_wall_order_total(a: Coord, b: Coord)
    ensures
        wall_lt(a, b) || wall_lt(b, a) || a == b,
        !(wall_lt(a, b) && wall_lt(b, a)),
{
}

/// Inserting a wall anchor into a sorted list, described by the split
/// point the executable search finds.
pub proof fn lemma_spec_insert_split(s: Seq<Coord>, w: Coord, i: int)
    requires
        sorted_walls(s),
        0 <= i <= s.len(),
        forall|j: int| 0 <= j < i ==> wall_lt(#[trigger] s[j], w),
        i < s.len() ==> !wall_lt(s[i], w),
    ensures
        spec_insert_wall(s, w) == if i < s.len() && s[i] == w {
            s
        } else {
            s.subrange(0, i) + seq![w] + s.subrange(i, s.len() as int)
        },
    decreases s.len(),
{
    if s.len() == 0 {
        assert(spec_insert_wall(s, w) =~= s.subrange(0, i) + seq![w] + s.subrange(
            i,
            s.len() as int,
        ));
    } else if i == 0 {
        lemma_wall_order_total(s[0], w);
        if s[0] == w {
        } else {
            assert(wall_lt(w, s[0]));
            assert(spec_insert_wall(s, w) =~= s.subrange(0, 0) + seq![w] + s.subrange(
                0,
                s.len() as int,
            ));
        }
    } else {
        lemma_wall_order_total(s[0], w);
        assert(wall_lt(s[0], w));
        assert(!wall_lt(w, s[0]) && s[0] != w);
        let t = s.drop_first();
        assert forall|j: int| 0 <= j < i - 1 implies wall_lt(#[trigger] t[j], w) by {
            assert(t[j] == s[j + 1]);
        }
        lemma_spec_insert_split(t, w, i - 1);
        if i - 1 < t.len() && t[i - 1] == w {
            assert(s[i] == w);
            assert(spec_insert_wall(s, w) =~= s);
        } else {
            assert(spec_insert_wall(s, w) =~= s.subrange(0, i) + seq![w] + s.subrange(
                i,
                s.len() as int,
            )) by {
                assert(t.subrange(0, i - 1) =~= s.subrange(1, i));
                assert(t.subrange(i - 1, t.len() as int) =~= s.subrange(i, s.len() as int));
                assert(seq![s[0]] + (t.subrange(0, i - 1) + seq![w] + t.subrange(
                    i - 1,
                    t.len() as int,
                )) =~= s.subrange(0, i) + seq![w] + s.subrange(i, s.len() as int));
            }
        }
    }
}

/// Membership in a concatenation.
pub proof fn lemma_concat_contains(a: Seq<Coord>, b: Seq<Coord>, x: Coord)
    ensures
        (a + b).contains(x) <==> a.contains(x) || b.contains(x),
{
    if (a + b).contains(x) {
        let i = choose|i: int| 0 <= i < (a + b).len() && (a + b)[i] == x;
        if i < a.len() {
            assert(a[i] == x);
        } else {
            assert(b[i - a.len()] == x);
        }
    }
    if a.contains(x) {
        let i = choose|i: int| 0 <= i < a.len() && a[i] == x;
        assert((a + b)[i] == x);
    }
    if b.contains(x) {
        let i = choose|i: int| 0 <= i < b.len() && b[i] == x;
        assert((a + b)[a.len() + i] == x);
    }
}

/// Inserting into a sorted wall list keeps it sorted and on the board,
/// and adds exactly the new anchor to its set of anchors.
pub proof fn lemma_insert_wall_props(s: Seq<Coord>, w: Coord, size: usize)
    requires
        sorted_walls(s),
        walls_valid(s, size),
        valid_cell(size, w),
    ensures
        sorted_walls(spec_insert_wall(s, w)),
        walls_valid(spec_insert_wall(s, w), size),
        spec_insert_wall(s, w).to_set() == s.to_set().insert(w),
    decreases s.len(),
{
    if s.len() == 0 {
        assert(spec_insert_wall(s, w) == seq![w]);
        assert(seq![w].contains(w)) by {
            assert(seq![w][0] == w);
        }
        assert(seq![w].to_set() =~= s.to_set().insert(w));
    } else if wall_lt(w, s[0]) {
        let sp = seq![w] + s;
        assert forall|a: int, b: int| 0 <= a < b < sp.len() implies wall_lt(
            #[trigger] sp[a],
            #[trigger] sp[b],
        ) by {
            if a == 0 {
                assert(sp[b] == s[b - 1]);
                if b > 1 {
                    assert(wall_lt(s[0], s[b - 1]));
                }
            } else {
                assert(sp[a] == s[a - 1] && sp[b] == s[b - 1]);
            }
        }
        assert forall|i: int| 0 <= i < sp.len() implies valid_cell(size, #[trigger] sp[i]) by {
            if i > 0 {
                assert(sp[i] == s[i - 1]);
            }
        }
        assert(sp.to_set() =~= s.to_set().insert(w)) by {
            assert forall|x: Coord| true implies (sp.contains(x) <==> s.contains(x) || x == w) by {
                lemma_concat_contains(seq![w], s, x);
                assert(seq![w].contains(x) <==> x == w) by {
                    assert(seq![w][0] == w);
                }
            }
        }
    } else if s[0] == w {
        assert(s.contains(w)) by {
            assert(s[0] == w);
        }
        assert(s.to_set() =~= s.to_set().insert(w));
    } else {
        let t = s.drop_first();
        assert forall|a: int, b: int| 0 <= a < b < t.len() implies wall_lt(
            #[trigger] t[a],
            #[trigger] t[b],
        ) by {
            assert(t[a] == s[a + 1] && t[b] == s[b + 1]);
        }
        assert forall|i: int| 0 <= i < t.len() implies valid_cell(size, #[trigger] t[i]) by {
            assert(t[i] == s[i + 1]);
        }
        lemma_insert_wall_props(t, w, size);
        let ti = spec_insert_wall(t, w);
        let sp = seq![s[0]] + ti;
        assert(spec_insert_wall(s, w) == sp);
        lemma_wall_order_total(s[0], w);
        assert(wall_lt(s[0], w));
        assert forall|a: int, b: int| 0 <= a < b < sp.len() implies wall_lt(
            #[trigger] sp[a],
            #[trigger] sp[b],
        ) by {
            if a == 0 {
                let x = sp[b];
                assert(ti[b - 1] == x);
                assert(ti.contains(x)) by {
                    assert(ti[b - 1] == x);
                }
                assert(ti.to_set().contains(x));
                if x == w {
                } else {
                    assert(t.to_set().contains(x));
                    let j = choose|j: int| 0 <= j < t.len() && t[j] == x;
                    assert(s[j + 1] == x);
                    assert(wall_lt(s[0], s[j + 1]));
                }
            } else {
                assert(sp[a] == ti[a - 1] && sp[b] == ti[b - 1]);
            }
        }
        assert forall|i: int| 0 <= i < sp.len() implies valid_cell(size, #[trigger] sp[i]) by {
            if i > 0 {
                let x = sp[i];
                assert(ti[i - 1] == x);
                assert(ti.contains(x)) by {
                    assert(ti[i - 1] == x);
                }
                assert(ti.to_set().contains(x));
                if x != w {
                    assert(t.to_set().contains(x));
                    let j = choose|j: int| 0 <= j < t.len() && t[j] == x;
                }
            }
        }
        assert(sp.to_set() =~= s.to_set().insert(w)) by {
            assert forall|x: Coord| true implies (sp.contains(x) <==> s.contains(x) || x == w) by {
                lemma_concat_contains(seq![s[0]], ti, x);
                assert(seq![s[0]].contains(x) <==> x == s[0]) by {
                    assert(seq![s[0]][0] == s[0]);
                }
                assert(ti.contains(x) <==> ti.to_set().contains(x));
                assert(t.contains(x) <==> t.to_set().contains(x));
                assert(t.contains(x) ==> s.contains(x)) by {
                    if t.contains(x) {
                        let j = choose|j: int| 0 <= j < t.len() && t[j] == x;
                        assert(s[j + 1] == x);
                    }
                }
                assert(s.contains(x) ==> (x == s[0] || t.contains(x))) by {
                    if s.contains(x) {
                        let j = choose|j: int| 0 <= j < s.len() && s[j] == x;
                        if j > 0 {
                            assert(t[j - 1] == x);
                        }
                    }
                }
            }
        }
    }
}

/// Adding a horizontal wall to the wall sets removes exactly the edges
/// the wall blocks, in both directions, from the board adjacency.
pub proof fn lemma_hwall_edge_update(size: usize, h: Set<Coord>, v: Set<Coord>, w: Coord)
    requires
        valid_cell(size, w),
    ensures
        board_edges(size, h.insert(w), v) == (match spec_blocked_edges(w, 'h', size) {
            Some((e1, oe2)) => {
                let s1 = board_edges(size, h, v).remove(e1).remove((e1.1, e1.0));
                match oe2 {
                    Some(e2) => s1.remove(e2).remove((e2.1, e2.0)),
                    None => s1,
                }
            },
            None => board_edges(size, h, v),
        }),
{
    if w.0 > 0 && w.1 + 1 < size {
        let e1 = ((((w.0 - 1) as usize), w.1), (w.0, w.1));
        let e2 = ((((w.0 - 1) as usize), ((w.1 + 1) as usize)), (w.0, ((w.1 + 1) as usize)));
        assert(board_edges(size, h.insert(w), v) =~= board_edges(size, h, v).remove(e1).remove(
            (e1.1, e1.0),
        ).remove(e2).remove((e2.1, e2.0)));
    } else {
        assert(board_edges(size, h.insert(w), v) =~= board_edges(size, h, v));
    }
}

/// Adding a vertical wall to the wall sets removes exactly the edges
/// the wall blocks, in both directions, from the board adjacency.
pub proof fn lemma_vwall_edge_update(size: usize, h: Set<Coord>, v: Set<Coord>, w: Coord)
    requires
        valid_cell(size, w),
    ensures
        board_edges(size, h, v.insert(w)) == (match spec_blocked_edges(w, 'v', size) {
            Some((e1, oe2)) => {
                let s1 = board_edges(size, h, v).remove(e1).remove((e1.1, e1.0));
                match oe2 {
                    Some(e2) => s1.remove(e2).remove((e2.1, e2.0)),
                    None => s1,
                }
            },
            None => board_edges(size, h, v),
        }),
{
    if w.0 > 0 && w.1 + 1 < size {
        let e1 = ((w.0, w.1), (w.0, ((w.1 + 1) as usize)));
        let e2 = ((((w.0 - 1) as usize), w.1), (((w.0 - 1) as usize), ((w.1 + 1) as usize)));
        assert(board_edges(size, h, v.insert(w)) =~= board_edges(size, h, v).remove(e1).remove(
            (e1.1, e1.0),
        ).remove(e2).remove((e2.1, e2.0)));
    } else if w.0 == 0 && w.1 + 1 < size {
        let e1 = ((w.0, w.1), (w.0, ((w.1 + 1) as usize)));
        assert(board_edges(size, h, v.insert(w)) =~= board_edges(size, h, v).remove(e1).remove(
            (e1.1, e1.0),
        ));
    } else {
        assert(board_edges(size, h, v.insert(w)) =~= board_edges(size, h, v));
    }
}

/// Every legal pawn move label has exactly two characters.
#[verifier::rlimit(100)]
pub proof fn lemma_pawn_labels_len(m: GameModel, pl: Player)
    ensures
        forall|i: int|
            0 <= i < spec_legal_moves(m, pl).len() ==> (#[trigger] spec_legal_moves(m, pl)[
                i
            ]).len() == 2,
{
    assert forall|k: int, j: int|
        0 <= k < 4 && 0 <= j < spec_moves_for_dir(m, pl, k).len() implies (#[trigger]
    spec_moves_for_dir(m, pl, k)[j]).len() == 2 by {
        let own = m.pawn(pl);
        let opp = m.pawn(pl.spec_opponent());
        let part = spec_moves_for_dir(m, pl, k);
        assert forall|k2: int, j2: int|
            0 <= k2 < 4 && 0 <= j2 < spec_diag_moves_k(m, own, opp, k2).len() implies (#[trigger]
        spec_diag_moves_k(m, own, opp, k2)[j2]).len() == 2 by {}
        if part == spec_diag_moves(m, own, opp) {
            let d0 = spec_diag_moves_k(m, own, opp, 0);
            let d1 = spec_diag_moves_k(m, own, opp, 1);
            let d2 = spec_diag_moves_k(m, own, opp, 2);
            let d3 = spec_diag_moves_k(m, own, opp, 3);
            if j < d0.len() {
                assert(part[j] == d0[j]);
            } else if j < d0.len() + d1.len() {
                assert(part[j] == d1[j - d0.len()]);
            } else if j < d0.len() + d1.len() + d2.len() {
                assert(part[j] == d2[j - d0.len() - d1.len()]);
            } else {
                assert(part[j] == d3[j - d0.len() - d1.len() - d2.len()]);
            }
        }
    }
    assert forall|i: int| 0 <= i < spec_legal_moves(m, pl).len() implies (#[trigger]
    spec_legal_moves(m, pl)[i]).len() == 2 by {
        let p0 = spec_moves_for_dir(m, pl, 0);
        let p1 = spec_moves_for_dir(m, pl, 1);
        let p2 = spec_moves_for_dir(m, pl, 2);
        let p3 = spec_moves_for_dir(m, pl, 3);
        let s0 = spec_legal_moves(m, pl);
        if i < p0.len() {
            assert(s0[i] == p0[i]);
        } else if i < p0.len() + p1.len() {
            assert(s0[i] == p1[i - p0.len()]);
        } else if i < p0.len() + p1.len() + p2.len() {
            assert(s0[i] == p2[i - p0.len() - p1.len()]);
        } else {
            assert(s0[i] == p3[i - p0.len() - p1.len() - p2.len()]);
        }
    }
}

/// The connectivity invariant: after any wall placement that
/// `add_wall` accepts with checking on, both players still reach
/// their goal rows — their goal distance is never the unreachable
/// sentinel.
pub proof fn lemma_accepted_wall_keeps_paths(m: GameModel, s: Seq<char>)
    requires
        Quoridor::model_wf(m),
        spec_add_wall(m, s, false, true).0,
    ensures
        row_reachable(
            spec_add_wall(m, s, false, true).1.edges(),
            spec_add_wall(m, s, false, true).1.pawn1,
            0,
        ),
        row_reachable(
            spec_add_wall(m, s, false, true).1.edges(),
            spec_add_wall(m, s, false, true).1.pawn2,
            ((m.size - 1) as usize),
        ),
{
    reveal(spec_wall_ok);
    let o = s.last();
    let w = spec_decode(s.drop_last(), m.size)->Ok_0;
    assert(valid_cell(m.size, w));
    assert(spec_wall_ok(m, m.active, w, o));
    let m2 = spec_add_wall(m, s, false, true).1;
    if o == 'h' {
        lemma_insert_wall_props(m.hwalls, w, m.size);
        lemma_hwall_edge_update(m.size, m.hwalls.to_set(), m.vwalls.to_set(), w);
        assert(m2.hwalls.to_set() == m.hwalls.to_set().insert(w));
        assert(m2.edges() == spec_edges_minus(m, w, o));
    } else {
        lemma_insert_wall_props(m.vwalls, w, m.size);
        lemma_vwall_edge_update(m.size, m.hwalls.to_set(), m.vwalls.to_set(), w);
        assert(m2.vwalls.to_set() == m.vwalls.to_set().insert(w));
        assert(m2.edges() == spec_edges_minus(m, w, o));
    }
    assert(spec_paths_ok(m, spec_edges_minus(m, w, o)));
}

/// The state of a Quoridor game.
pub struct Quoridor {
    size: usize,
    walls: usize,
    graph: BoardGraph,
    hwall_positions: Vec<Coord>,
    vwall_positions: Vec<Coord>,
    pawn1: Coord,
    pawn2: Coord,
    walls1: usize,
    walls2: usize,
    active_player: Player,
    state_string: String,
    previous_state: String,
    last_move: String,
}

impl View for Quoridor {
    type V = GameModel;

    closed spec fn view(&self) -> GameModel {
        GameModel {
            size: self.size,
            walls: self.walls,
            hwalls: self.hwall_positions@,
            vwalls: self.vwall_positions@,
            pawn1: self.pawn1,
            pawn2: self.pawn2,
            walls1: self.walls1,
            walls2: self.walls2,
            active: self.active_player,
            state_string: self.state_string@,
            previous_state: self.previous_state@,
            last_move: self.last_move@,
        }
    }
}

impl Quoridor {
    /// The game is well formed: the size is odd and within the
    /// notation's range, the pawns and anchors lie on the board, the
    /// wall lists are sorted, and the graph's edges are exactly the
    /// adjacency the wall sets induce.
    pub closed spec fn wf(&self) -> bool {
        &&& 3 <= self.size <= 9
        &&& self.size % 2 == 1
        &&& valid_cell(self.size, self.pawn1)
        &&& valid_cell(self.size, self.pawn2)
        &&& walls_valid(self.hwall_positions@, self.size)
        &&& walls_valid(self.vwall_positions@, self.size)
        &&& sorted_walls(self.hwall_positions@)
        &&& sorted_walls(self.vwall_positions@)
        &&& graph_edge_set(self.graph) == self@.edges()
    }

    /// The board is well formed exactly when its model says so.
    pub open spec fn model_wf(m: GameModel) -> bool {
        &&& 3 <= m.size <= 9
        &&& m.size % 2 == 1
        &&& valid_cell(m.size, m.pawn1)
        &&& valid_cell(m.size, m.pawn2)
        &&& walls_valid(m.hwalls, m.size)
        &&& walls_valid(m.vwalls, m.size)
        &&& sorted_walls(m.hwalls)
        &&& sorted_walls(m.vwalls)
    }

    /// Builds the wall-free adjacency graph of a fresh board.
    fn build_grid_graph(size: usize) -> (g: BoardGraph)
        requires
            3 <= size <= 9,
        ensures
            graph_edge_set(g) == board_edges(size, Set::<Coord>::empty(), Set::<Coord>::empty()),
    {
        let mut g = graph_new();
        proof {
            assert(graph_edge_set(g) =~= h_pairs_before(size, 0, 0));
        }
        let mut r: usize = 0;
        #[verifier::loop_isolation(false)]
        while r < size
            invariant
                r <= size,
                graph_edge_set(g) == h_pairs_before(size, r as int, 0),
            decreases size - r,
        {
            let mut c: usize = 0;
            #[verifier::loop_isolation(false)]
            while c + 1 < size
                invariant
                    c <= size,
                    graph_edge_set(g) == h_pairs_before(size, r as int, c as int),
                decreases size - c,
            {
                graph_add_edge(&mut g, (r, c), (r, c + 1));
                proof {
                    assert(graph_edge_set(g) =~= h_pairs_before(size, r as int, c + 1));
                }
                c += 1;
            }
            proof {
                assert(h_pairs_before(size, r as int, (size - 1) as int) =~= h_pairs_before(
                    size,
                    r + 1,
                    0,
                ));
            }
            r += 1;
        }
        proof {
            assert(h_pairs_before(size, size as int, 0) =~= hv_pairs_before(size, 0, 0));
        }
        let mut r2: usize = 0;
        #[verifier::loop_isolation(false)]
        while r2 + 1 < size
            invariant
                r2 <= size,
                graph_edge_set(g) == hv_pairs_before(size, r2 as int, 0),
            decreases size - r2,
        {
            let mut c2: usize = 0;
            #[verifier::loop_isolation(false)]
            while c2 < size
                invariant
                    c2 <= size,
                    graph_edge_set(g) == hv_pairs_before(size, r2 as int, c2 as int),
                decreases size - c2,
            {
                graph_add_edge(&mut g, (r2, c2), (r2 + 1, c2));
                proof {
                    assert(graph_edge_set(g) =~= hv_pairs_before(size, r2 as int, c2 + 1));
                }
                c2 += 1;
            }
            proof {
                assert(hv_pairs_before(size, r2 as int, size as int) =~= hv_pairs_before(
                    size,
                    r2 + 1,
                    0,
                ));
            }
            r2 += 1;
        }
        proof {
            assert(hv_pairs_before(size, (size - 1) as int, 0) =~= board_edges(
                size,
                Set::<Coord>::empty(),
                Set::<Coord>::empty(),
            ));
        }
        g
    }

    /// An element-for-element copy of a coordinate list.
    fn copy_coord_vec(v: &Vec<Coord>) -> (r: Vec<Coord>)
        ensures
            r@ == v@,
    {
        let mut r: Vec<Coord> = Vec::new();
        let mut i: usize = 0;
        #[verifier::loop_isolation(false)]
        while i < v.len()
            invariant
                i <= v@.len(),
                r@ == v@.subrange(0, i as int),
            decreases v@.len() - i,
        {
            r.push(v[i]);
            proof {
                assert(r@ =~= v@.subrange(0, i + 1));
            }
            i += 1;
        }
        proof {
            assert(v@.subrange(0, v@.len() as int) =~= v@);
        }
        r
    }

    /// Renders the labels of a wall list.
    fn wall_labels(ws: &Vec<Coord>, size: usize) -> (r: String)
        requires
            walls_valid(ws@, size),
            3 <= size <= 9,
        ensures
            r@ == spec_wall_labels(ws@, size),
    {
        let mut r = String::new();
        let mut i: usize = 0;
        #[verifier::loop_isolation(false)]
        while i < ws.len()
            invariant
                i <= ws@.len(),
                r@ == spec_wall_labels(ws@.subrange(0, i as int), size),
            decreases ws@.len() - i,
        {
            let w = ws[i];
            let label = coord_to_algebraic(w, size);
            r.append(label.as_str());
            proof {
                assert(ws@.subrange(0, i + 1).drop_last() =~= ws@.subrange(0, i as int));
                assert(ws@.subrange(0, i + 1).last() == ws@[i as int]);
            }
            i += 1;
        }
        proof {
            assert(ws@.subrange(0, ws@.len() as int) =~= ws@);
        }
        r
    }

    /// Rebuilds the canonical serialized state, first passing the turn
    /// to the opponent unless `keep_player` is set.
    fn update_state_string(&mut self, keep_player: bool)
        requires
            old(self).wf(),
        ensures
            final(self).wf(),
            final(self)@ == (GameModel {
                active: if keep_player {
                    old(self)@.active
                } else {
                    old(self)@.active.spec_opponent()
                },
                state_string: final(self)@.state_string,
                ..old(self)@
            }),
            final(self)@.state_string == spec_render_state(final(self)@),
    {
        if !keep_player {
            self.active_player = self.active_player.opponent();
        }
        let mut s = Self::wall_labels(&self.hwall_positions, self.size);
        s.append(" / ");
        let vlabels = Self::wall_labels(&self.vwall_positions, self.size);
        s.append(vlabels.as_str());
        s.append(" / ");
        let p1 = coord_to_algebraic(self.pawn1, self.size);
        s.append(p1.as_str());
        s.append(" ");
        let p2 = coord_to_algebraic(self.pawn2, self.size);
        s.append(p2.as_str());
        s.append(" / ");
        let w1 = usize_to_string(self.walls1);
        s.append(w1.as_str());
        s.append(" ");
        let w2 = usize_to_string(self.walls2);
        s.append(w2.as_str());
        s.append(" / ");
        let digs = "0123456789";
        proof {
            reveal_strlit("0123456789");
        }
        let num = self.active_player.number();
        s.append(digs.substring_ascii(num, num + 1));
        self.state_string = s;
        proof {
            assert(self@.state_string =~= spec_render_state(self@));
        }
    }

    /// Builds the starting position.
    fn fresh(size: usize, walls: usize) -> (g: Quoridor)
        requires
            3 <= size <= 9,
            size % 2 == 1,
        ensures
            g.wf(),
            g@ == spec_new_model(size, walls),
    {
        let graph = Self::build_grid_graph(size);
        let mut game = Quoridor {
            size,
            walls,
            graph,
            hwall_positions: Vec::new(),
            vwall_positions: Vec::new(),
            pawn1: (size - 1, size / 2),
            pawn2: (0, size / 2),
            walls1: walls,
            walls2: walls,
            active_player: Player::Player1,
            state_string: String::new(),
            previous_state: String::new(),
            last_move: String::from_str("None"),
        };
        proof {
            assert(game@.hwalls.to_set() =~= Set::<Coord>::empty());
            assert(game@.vwalls.to_set() =~= Set::<Coord>::empty());
        }
        game.update_state_string(true);
        proof {
            assert(game@ == spec_new_model(size, walls));
        }
        game
    }

    /// Applies a run of two-character wall anchors during loading.
    fn apply_wall_list(&mut self, t: &str, o: char) -> (r: bool)
        requires
            old(self).wf(),
            o == 'h' || o == 'v',
        ensures
            final(self).wf(),
            r == (spec_parse_wall_list(
                t@,
                old(self)@.size,
                if o == 'h' {
                    old(self)@.hwalls
                } else {
                    old(self)@.vwalls
                },
            ) is Some),
            r ==> final(self)@ == (if o == 'h' {
                GameModel {
                    hwalls: spec_parse_wall_list(
                        t@,
                        old(self)@.size,
                        old(self)@.hwalls,
                    )->Some_0,
                    ..old(self)@
                }
            } else {
                GameModel {
                    vwalls: spec_parse_wall_list(
                        t@,
                        old(self)@.size,
                        old(self)@.vwalls,
                    )->Some_0,
                    ..old(self)@
                }
            }),
    {
        let n = t.unicode_len();
        proof {
            assert(t@.subrange(0, t@.len() as int) =~= t@);
        }
        let mut i: usize = 0;
        #[verifier::loop_isolation(false)]
        while n >= 2 && i <= n - 2
            invariant
                i <= n,
                self.wf(),
                self@.size == old(self)@.size,
                spec_parse_wall_list(
                    t@,
                    old(self)@.size,
                    if o == 'h' {
                        old(self)@.hwalls
                    } else {
                        old(self)@.vwalls
                    },
                ) == spec_parse_wall_list(
                    t@.subrange(i as int, t@.len() as int),
                    old(self)@.size,
                    if o == 'h' {
                        self@.hwalls
                    } else {
                        self@.vwalls
                    },
                ),
                self@ == (if o == 'h' {
                    GameModel { hwalls: self@.hwalls, ..old(self)@ }
                } else {
                    GameModel { vwalls: self@.vwalls, ..old(self)@ }
                }),
            decreases n - i,
        {
            let grp = t.substring_char(i, i + 2);
            let ghost restpre = t@.subrange(i as int, t@.len() as int);
            proof {
                assert(grp@ =~= restpre.subrange(0, 2));
            }
            match algebraic_to_coord(grp, self.size) {
                Err(_) => {
                    return false;
                },
                Ok(w) => {
                    self.apply_wall(w, o, grp, true);
                    proof {
                        assert(t@.subrange(i + 2, t@.len() as int) =~= restpre.subrange(
                            2,
                            restpre.len() as int,
                        ));
                    }
                },
            }
            i += 2;
        }
        proof {
            assert(t@.subrange(i as int, t@.len() as int).len() < 2);
        }
        true
    }

    /// A wall-stock token: its decimal value, or the default when it
    /// is not a number.
    fn parse_usize_or(t: &str, default: usize) -> (r: usize)
        ensures
            r == spec_parse_usize(t@, default),
    {
        let n = t.unicode_len();
        if n == 0 {
            return default;
        }
        let ghost bound = usize::MAX as u128 + 1;
        let mut acc: u128 = 0;
        let mut i: usize = 0;
        #[verifier::loop_isolation(false)]
        while i < n
            invariant
                i <= n,
                n == t@.len(),
                spec_all_digits(t@.subrange(0, i as int)),
                acc == if spec_digits_val(t@.subrange(0, i as int)) > usize::MAX {
                    bound
                } else {
                    spec_digits_val(t@.subrange(0, i as int))
                },
            decreases n - i,
        {
            let ch = t.get_char(i);
            if !(ch >= '0' && ch <= '9') {
                proof {
                    assert(!crate::notation::spec_is_digit(t@.subrange(0, n as int)[i as int]));
                    assert(t@.subrange(0, n as int) =~= t@);
                }
                return default;
            }
            let d: u128 = (ch as u32 as u128) - 48;
            let ghost pre = t@.subrange(0, i as int);
            let ghost cur = t@.subrange(0, i + 1);
            proof {
                assert(cur.drop_last() =~= pre);
                assert(cur.last() == t@[i as int]);
            }
            acc = acc * 10 + d;
            if acc > usize::MAX as u128 {
                acc = usize::MAX as u128 + 1;
            }
            i += 1;
        }
        proof {
            assert(t@.subrange(0, n as int) =~= t@);
        }
        if acc > usize::MAX as u128 {
            default
        } else {
            acc as usize
        }
    }

    /// Loads a serialized state onto a fresh board.
    fn new_from_state(size: usize, walls: usize, st: &str) -> (r: Result<Quoridor, GameError>)
        requires
            3 <= size <= 9,
            size % 2 == 1,
        ensures
            r is Ok <==> spec_parse(st@, size, walls) is Some,
            r matches Ok(g) ==> g.wf() && Some(g@) == spec_parse(st@, size, walls),
            r matches Err(e) ==> e == GameError::InvalidConfiguration,
    {
        let n0 = st.unicode_len();
        let i1 = match crate::textparse::find_char(st, '/') {
            None => {
                return Err(GameError::InvalidConfiguration);
            },
            Some(i) => i,
        };
        proof {
            crate::textparse::lemma_first_idx(st@, '/');
        }
        let part0 = st.substring_char(0, i1);
        let rest1 = st.substring_char(i1 + 1, n0);
        proof {
            assert(part0@ =~= st@.subrange(0, i1 as int));
            assert(rest1@ =~= st@.subrange(i1 + 1, st@.len() as int));
        }
        let n1 = rest1.unicode_len();
        let i2 = match crate::textparse::find_char(rest1, '/') {
            None => {
                return Err(GameError::InvalidConfiguration);
            },
            Some(i) => i,
        };
        proof {
            crate::textparse::lemma_first_idx(rest1@, '/');
        }
        let part1 = rest1.substring_char(0, i2);
        let rest2 = rest1.substring_char(i2 + 1, n1);
        proof {
            assert(part1@ =~= rest1@.subrange(0, i2 as int));
            assert(rest2@ =~= rest1@.subrange(i2 + 1, rest1@.len() as int));
        }
        let n2 = rest2.unicode_len();
        let i3 = match crate::textparse::find_char(rest2, '/') {
            None => {
                return Err(GameError::InvalidConfiguration);
            },
            Some(i) => i,
        };
        proof {
            crate::textparse::lemma_first_idx(rest2@, '/');
        }
        let part2 = rest2.substring_char(0, i3);
        let rest3 = rest2.substring_char(i3 + 1, n2);
        proof {
            assert(part2@ =~= rest2@.subrange(0, i3 as int));
            assert(rest3@ =~= rest2@.subrange(i3 + 1, rest2@.len() as int));
        }
        let n3 = rest3.unicode_len();
        let i4 = match crate::textparse::find_char(rest3, '/') {
            None => {
                return Err(GameError::InvalidConfiguration);
            },
            Some(i) => i,
        };
        proof {
            crate::textparse::lemma_first_idx(rest3@, '/');
        }
        let part3 = rest3.substring_char(0, i4);
        let part4 = rest3.substring_char(i4 + 1, n3);
        proof {
            assert(part3@ =~= rest3@.subrange(0, i4 as int));
            assert(part4@ =~= rest3@.subrange(i4 + 1, rest3@.len() as int));
        }
        match crate::textparse::find_char(part4, '/') {
            Some(_) => {
                return Err(GameError::InvalidConfiguration);
            },
            None => {},
        }
        let hw = crate::textparse::trim_str(part0);
        let vw = crate::textparse::trim_str(part1);
        let pw = crate::textparse::trim_str(part2);
        let ww = crate::textparse::trim_str(part3);
        let ap = crate::textparse::trim_str(part4);
        let mut game = Self::fresh(size, walls);
        if !game.apply_wall_list(hw.as_str(), 'h') {
            return Err(GameError::InvalidConfiguration);
        }
        if !game.apply_wall_list(vw.as_str(), 'v') {
            return Err(GameError::InvalidConfiguration);
        }
        let ptoks = crate::textparse::tokens_of(pw.as_str());
        if ptoks.len() != 2 {
            proof {
                assert(spec_tokens(pw@).len() != 2);
            }
            return Err(GameError::InvalidConfiguration);
        }
        proof {
            assert(spec_tokens(pw@)[0] == ptoks@[0]@);
            assert(spec_tokens(pw@)[1] == ptoks@[1]@);
        }
        let p1pos = match algebraic_to_coord(ptoks[0].as_str(), size) {
            Err(_) => {
                return Err(GameError::InvalidConfiguration);
            },
            Ok(c) => c,
        };
        let p2pos = match algebraic_to_coord(ptoks[1].as_str(), size) {
            Err(_) => {
                return Err(GameError::InvalidConfiguration);
            },
            Ok(c) => c,
        };
        game.pawn1 = p1pos;
        game.pawn2 = p2pos;
        let wtoks = crate::textparse::tokens_of(ww.as_str());
        if wtoks.len() != 2 {
            proof {
                assert(spec_tokens(ww@).len() != 2);
            }
            return Err(GameError::InvalidConfiguration);
        }
        proof {
            assert(spec_tokens(ww@)[0] == wtoks@[0]@);
            assert(spec_tokens(ww@)[1] == wtoks@[1]@);
        }
        game.walls1 = Self::parse_usize_or(wtoks[0].as_str(), walls);
        game.walls2 = Self::parse_usize_or(wtoks[1].as_str(), walls);
        let ap_len = ap.as_str().unicode_len();
        let ap_ok_1 = ap_len == 1 && ap.as_str().get_char(0) == '1';
        let ap_ok_2 = ap_len == 1 && ap.as_str().get_char(0) == '2';
        proof {
            assert(ap_ok_1 == (ap@ =~= seq!['1']));
            assert(ap_ok_2 == (ap@ =~= seq!['2']));
        }
        if ap_ok_1 {
            game.active_player = Player::Player1;
        } else if ap_ok_2 {
            game.active_player = Player::Player2;
        } else {
            return Err(GameError::InvalidConfiguration);
        }
        game.update_state_string(true);
        proof {
            assert(Some(game@) == spec_parse(st@, size, walls));
        }
        Ok(game)
    }

    /// Creates a game: `size` cells per side (odd, between 3 and 9),
    /// each player starting with `walls` walls; with a serialized
    /// state, loads that state instead of the starting position.
    pub fn new(size: usize, walls: usize, state_string: Option<&str>) -> (r: Result<
        Quoridor,
        GameError,
    >)
        ensures
            r is Ok <==> (3 <= size <= 9 && size % 2 == 1 && (match state_string {
                Some(st) => spec_parse(st@, size, walls) is Some,
                None => true,
            })),
            r matches Ok(g) ==> g.wf() && g@ == (match state_string {
                Some(st) => spec_parse(st@, size, walls)->Some_0,
                None => spec_new_model(size, walls),
            }),
            r matches Err(e) ==> e == GameError::InvalidConfiguration,
    {
        if size < 3 || size > 9 || size % 2 == 0 {
            return Err(GameError::InvalidConfiguration);
        }
        match state_string {
            None => Ok(Self::fresh(size, walls)),
            Some(st) => Self::new_from_state(size, walls, st),
        }
    }

    /// What well-formedness guarantees publicly: the size bounds, the
    /// pawns on the board, and the wall anchors on the board.
    pub proof fn wf_bounds(&self)
        requires
            self.wf(),
        ensures
            3 <= self@.size <= 9,
            self@.size % 2 == 1,
            valid_cell(self@.size, self@.pawn1),
            valid_cell(self@.size, self@.pawn2),
            walls_valid(self@.hwalls, self@.size),
            walls_valid(self@.vwalls, self@.size),
            sorted_walls(self@.hwalls),
            sorted_walls(self@.vwalls),
    {
    }

    /// Cells per side.
    pub fn size(&self) -> (r: usize)
        ensures
            r == self@.size,
    {
        self.size
    }

    /// Walls each player started with.
    pub fn walls(&self) -> (r: usize)
        ensures
            r == self@.walls,
    {
        self.walls
    }

    /// A player's pawn cell.
    pub fn pawn_position(&self, player: Player) -> (r: Coord)
        ensures
            r == self@.pawn(player),
    {
        match player {
            Player::Player1 => self.pawn1,
            Player::Player2 => self.pawn2,
        }
    }

    /// Walls a player may still place.
    pub fn walls_available(&self, player: Player) -> (r: usize)
        ensures
            r == self@.walls_of(player),
    {
        match player {
            Player::Player1 => self.walls1,
            Player::Player2 => self.walls2,
        }
    }

    /// Whose turn it is.
    pub fn active_player(&self) -> (r: Player)
        ensures
            r == self@.active,
    {
        self.active_player
    }

    /// The horizontal wall anchors, in rendering order.
    pub fn hwall_positions(&self) -> (r: Vec<Coord>)
        ensures
            r@ == self@.hwalls,
    {
        Self::copy_coord_vec(&self.hwall_positions)
    }

    /// The vertical wall anchors, in rendering order.
    pub fn vwall_positions(&self) -> (r: Vec<Coord>)
        ensures
            r@ == self@.vwalls,
    {
        Self::copy_coord_vec(&self.vwall_positions)
    }

    /// The serialized state.
    pub fn state_string(&self) -> (r: String)
        ensures
            r@ == self@.state_string,
    {
        self.state_string.clone()
    }

    /// The serialized state before the last move.
    pub fn previous_state(&self) -> (r: String)
        ensures
            r@ == self@.previous_state,
    {
        self.previous_state.clone()
    }

    /// The last move made, in algebraic notation.
    pub fn last_move(&self) -> (r: String)
        ensures
            r@ == self@.last_move,
    {
        self.last_move.clone()
    }

    /// Converts a label to a coordinate on this board.
    pub fn algebraic_to_coord(&self, square: &str) -> (r: Result<Coord, GameError>)
        requires
            self.wf(),
        ensures
            r == spec_decode(square@, self@.size),
            r matches Ok(c) ==> valid_cell(self@.size, c),
    {
        algebraic_to_coord(square, self.size)
    }

    /// Converts a coordinate on this board to its label.
    pub fn coord_to_algebraic(&self, coord: Coord) -> (r: String)
        requires
            self.wf(),
            valid_cell(self@.size, coord),
        ensures
            r@ == spec_coord_label(coord, self@.size),
    {
        coord_to_algebraic(coord, self.size)
    }

    /// The least number of steps from `start` to any cell of `row`,
    /// or 100 when no such cell can be reached.
    #[verifier::rlimit(100)]
    fn row_distance(&self, start: Coord, row: usize) -> (r: usize)
        requires
            self.wf(),
        ensures
            r as int == spec_row_distance(self@.edges(), start, row),
    {
        let ghost edges = self@.edges();
        let entries = graph_hop_distances(&self.graph, start);
        let mut found = false;
        let mut best: usize = 0;
        let mut i: usize = 0;
        #[verifier::loop_isolation(false)]
        while i < entries.len()
            invariant
                i <= entries@.len(),
                found ==> exists|j: int|
                    0 <= j < i && (#[trigger] entries@[j]).0.0 == row && entries@[j].1 == best,
                forall|j: int|
                    0 <= j < i && (#[trigger] entries@[j]).0.0 == row ==> (found && best
                        <= entries@[j].1),
            decreases entries@.len() - i,
        {
            let (cell, d) = entries[i];
            if cell.0 == row {
                if !found || d < best {
                    best = d;
                    found = true;
                } else {
                }
            }
            i += 1;
        }
        if found {
            proof {
                let j = choose|j: int|
                    0 <= j < entries@.len() && (#[trigger] entries@[j]).0.0 == row
                        && entries@[j].1 == best;
                let wc = entries@[j].0;
                assert(is_dist(edges, start, wc, best as nat));
                assert(has_path_len(edges, start, wc, best as nat));
                assert(reachable(edges, start, wc));
                assert(row_reachable(edges, start, row));
                assert forall|m: nat, c: Coord| m < best as nat && c.0 == row implies !has_path_len(
                    edges,
                    start,
                    c,
                    m,
                ) by {
                    if has_path_len(edges, start, c, m) {
                        assert(reachable(edges, start, c));
                        let jj = choose|jj: int|
                            0 <= jj < entries@.len() && (#[trigger] entries@[jj]).0 == c;
                        assert(is_dist(edges, start, c, entries@[jj].1 as nat));
                        crate::model::lemma_dist_le(
                            edges,
                            start,
                            c,
                            entries@[jj].1 as nat,
                            m,
                        );
                        assert(best <= entries@[jj].1);
                    }
                }
                assert(is_row_dist(edges, start, row, best as nat));
                let d0 = spec_row_dist(edges, start, row);
                assert(is_row_dist(edges, start, row, d0));
                crate::model::lemma_row_dist_unique(edges, start, row, best as nat, d0);
            }
            best
        } else {
            proof {
                if row_reachable(edges, start, row) {
                    let c = choose|c: Coord| c.0 == row && reachable(edges, start, c);
                    let jj = choose|jj: int|
                        0 <= jj < entries@.len() && (#[trigger] entries@[jj]).0 == c;
                    assert(entries@[jj].0.0 == row);
                }
            }
            100
        }
    }

    /// The least number of pawn steps from the player's cell to its
    /// goal row, or 100 when every path is severed.
    pub fn distance_to_goal(&self, player: Player) -> (r: usize)
        requires
            self.wf(),
        ensures
            r as int == spec_row_distance(self@.edges(), self@.pawn(player), self@.goal_row(player)),
    {
        let start = self.pawn_position(player);
        let row = match player {
            Player::Player1 => 0,
            Player::Player2 => self.size - 1,
        };
        self.row_distance(start, row)
    }

    /// The least number of pawn steps to the adjacent row toward the
    /// player's goal: 0 on the goal row itself, 100 when unreachable.
    pub fn moves_to_next_row(&self, player: Player) -> (r: usize)
        requires
            self.wf(),
        ensures
            r as int == spec_moves_to_next_row(self@, player),
    {
        let start = self.pawn_position(player);
        match player {
            Player::Player1 => {
                if start.0 == 0 {
                    0
                } else {
                    self.row_distance(start, start.0 - 1)
                }
            },
            Player::Player2 => {
                if start.0 == self.size - 1 {
                    0
                } else {
                    self.row_distance(start, start.0 + 1)
                }
            },
        }
    }

    /// Whether the given move would win for the active player: it must
    /// be a two-character pawn move whose cell lies on the goal row.
    pub fn win_check(&self, move_alg: &str) -> (r: bool)
        requires
            self.wf(),
        ensures
            r == spec_win_check(self@, move_alg@),
    {
        let n = move_alg.unicode_len();
        if n != 2 {
            return false;
        }
        match self.algebraic_to_coord(move_alg) {
            Ok(dest) => {
                let row = match self.active_player {
                    Player::Player1 => 0,
                    Player::Player2 => self.size - 1,
                };
                dest.0 == row
            },
            Err(_) => false,
        }
    }

    /// One step from `c` in direction `k`, when it stays on the board.
    fn shift(c: Coord, k: usize, size: usize) -> (r: Option<Coord>)
        requires
            k < 4,
            valid_cell(size, c),
        ensures
            r == spec_shift(c, k as int, size),
    {
        if k == 0 {
            if c.0 >= 1 && c.0 - 1 < size && c.1 < size {
                Some((c.0 - 1, c.1))
            } else {
                None
            }
        } else if k == 1 {
            if c.0 + 1 < size && c.1 < size {
                Some((c.0 + 1, c.1))
            } else {
                None
            }
        } else if k == 2 {
            if c.1 >= 1 && c.1 - 1 < size && c.0 < size {
                Some((c.0, c.1 - 1))
            } else {
                None
            }
        } else {
            if c.1 + 1 < size && c.0 < size {
                Some((c.0, c.1 + 1))
            } else {
                None
            }
        }
    }

    /// Appends the diagonal destinations of direction `k2`.
    fn push_diag_moves_k(&self, out: &mut Vec<String>, own: Coord, opp: Coord, k2: usize)
        requires
            self.wf(),
            k2 < 4,
            valid_cell(self@.size, opp),
        ensures
            final(out)@.map_values(|s: String| s@) == old(out)@.map_values(|s: String| s@)
                + spec_diag_moves_k(self@, own, opp, k2 as int),
    {
        match Self::shift(opp, k2, self.size) {
            Some(cell) => {
                if !(cell.0 == own.0 && cell.1 == own.1) && graph_contains_edge(
                    &self.graph,
                    opp,
                    cell,
                ) {
                    let label = self.coord_to_algebraic(cell);
                    out.push(label);
                    proof {
                        assert(final(out)@.map_values(|s: String| s@) =~= old(out)@.map_values(
                            |s: String| s@,
                        ) + spec_diag_moves_k(self@, own, opp, k2 as int));
                    }
                } else {
                    proof {
                        assert(final(out)@.map_values(|s: String| s@) =~= old(out)@.map_values(
                            |s: String| s@,
                        ) + spec_diag_moves_k(self@, own, opp, k2 as int));
                    }
                }
            },
            None => {
                proof {
                    assert(final(out)@.map_values(|s: String| s@) =~= old(out)@.map_values(
                        |s: String| s@,
                    ) + spec_diag_moves_k(self@, own, opp, k2 as int));
                }
            },
        }
    }

    /// Appends every diagonal destination around the opponent.
    fn push_diag_moves(&self, out: &mut Vec<String>, own: Coord, opp: Coord)
        requires
            self.wf(),
            valid_cell(self@.size, opp),
        ensures
            final(out)@.map_values(|s: String| s@) == old(out)@.map_values(|s: String| s@)
                + spec_diag_moves(self@, own, opp),
    {
        self.push_diag_moves_k(out, own, opp, 0);
        self.push_diag_moves_k(out, own, opp, 1);
        self.push_diag_moves_k(out, own, opp, 2);
        self.push_diag_moves_k(out, own, opp, 3);
        proof {
            assert(out@.map_values(|s: String| s@) =~= old(out)@.map_values(|s: String| s@)
                + spec_diag_moves(self@, own, opp));
        }
    }

    /// Appends the destinations contributed by step direction `k`.
    #[verifier::rlimit(100)]
    fn push_moves_for_dir(&self, out: &mut Vec<String>, pl: Player, k: usize)
        requires
            self.wf(),
            k < 4,
        ensures
            final(out)@.map_values(|s: String| s@) == old(out)@.map_values(|s: String| s@)
                + spec_moves_for_dir(self@, pl, k as int),
    {
        let ghost goal = old(out)@.map_values(|s: String| s@) + spec_moves_for_dir(
            self@,
            pl,
            k as int,
        );
        let own = self.pawn_position(pl);
        let opp = self.pawn_position(pl.opponent());
        let nb_opt = Self::shift(own, k, self.size);
        match nb_opt {
            None => {
                proof {
                    assert(out@.map_values(|s: String| s@) =~= goal);
                }
            },
            Some(nb) => {
                if !graph_contains_edge(&self.graph, own, nb) {
                    proof {
                        assert(out@.map_values(|s: String| s@) =~= goal);
                    }
                } else if nb.0 == opp.0 && nb.1 == opp.1 {
                    let land_opt = Self::shift(nb, k, self.size);
                    let land_free = match land_opt {
                        Some(land) => graph_contains_edge(&self.graph, opp, land),
                        None => false,
                    };
                    if land_free {
                        let land = match land_opt {
                            Some(land) => land,
                            None => (0, 0),
                        };
                        let label = self.coord_to_algebraic(land);
                        out.push(label);
                        proof {
                            assert(out@.map_values(|s: String| s@) =~= goal);
                        }
                    } else {
                        self.push_diag_moves(out, own, opp);
                        proof {
                            assert(out@.map_values(|s: String| s@) =~= goal);
                        }
                    }
                } else {
                    let label = self.coord_to_algebraic(nb);
                    out.push(label);
                    proof {
                        assert(out@.map_values(|s: String| s@) =~= goal);
                    }
                }
            },
        }
    }

    /// Every legal pawn move of the player, including jumps, as
    /// algebraic labels.
    pub fn get_legal_moves(&self, player: Player) -> (r: Vec<String>)
        requires
            self.wf(),
        ensures
            r@.map_values(|s: String| s@) == spec_legal_moves(self@, player),
    {
        let mut out: Vec<String> = Vec::new();
        proof {
            assert(out@.map_values(|s: String| s@) =~= Seq::<Seq<char>>::empty());
        }
        self.push_moves_for_dir(&mut out, player, 0);
        self.push_moves_for_dir(&mut out, player, 1);
        self.push_moves_for_dir(&mut out, player, 2);
        self.push_moves_for_dir(&mut out, player, 3);
        proof {
            assert(out@.map_values(|s: String| s@) =~= spec_legal_moves(self@, player));
        }
        out
    }

    /// Whether a wall list holds the anchor.
    fn wall_list_contains(v: &Vec<Coord>, w: Coord) -> (r: bool)
        ensures
            r == v@.to_set().contains(w),
    {
        let mut i: usize = 0;
        #[verifier::loop_isolation(false)]
        while i < v.len()
            invariant
                i <= v@.len(),
                forall|j: int| 0 <= j < i ==> #[trigger] v@[j] != w,
            decreases v@.len() - i,
        {
            if v[i].0 == w.0 && v[i].1 == w.1 {
                return true;
            }
            i += 1;
        }
        false
    }

    /// Inserts an anchor into a sorted wall list, keeping it sorted;
    /// an anchor already present is left alone.
    fn insert_wall_sorted(v: &mut Vec<Coord>, w: Coord)
        requires
            sorted_walls(old(v)@),
        ensures
            final(v)@ == spec_insert_wall(old(v)@, w),
    {
        let mut i: usize = 0;
        #[verifier::loop_isolation(false)]
        while i < v.len() && (v[i].0 > w.0 || (v[i].0 == w.0 && v[i].1 < w.1))
            invariant
                i <= v@.len(),
                forall|j: int| 0 <= j < i ==> wall_lt(#[trigger] v@[j], w),
            decreases v@.len() - i,
        {
            i += 1;
        }
        proof {
            lemma_spec_insert_split(v@, w, i as int);
        }
        if i < v.len() && v[i].0 == w.0 && v[i].1 == w.1 {
        } else {
            v.insert(i, w);
            proof {
                assert(v@ =~= old(v)@.subrange(0, i as int) + seq![w] + old(v)@.subrange(
                    i as int,
                    old(v)@.len() as int,
                ));
            }
        }
    }

    /// Whether some cell of `row` can be reached from `start` on the
    /// given graph.
    fn goal_row_reachable(g: &BoardGraph, start: Coord, row: usize, size: usize) -> (r: bool)
        requires
            valid_cell(size, start),
            row < size,
            forall|pr: (Coord, Coord)| #[trigger]
                graph_edge_set(*g).contains(pr) ==> valid_cell(size, pr.0) && valid_cell(
                    size,
                    pr.1,
                ),
        ensures
            r == row_reachable(graph_edge_set(*g), start, row),
    {
        let mut c: usize = 0;
        #[verifier::loop_isolation(false)]
        while c < size
            invariant
                c <= size,
                forall|cc: int| 0 <= cc < c ==> !reachable(
                    graph_edge_set(*g),
                    start,
                    (row, #[trigger] (cc as usize)),
                ),
            decreases size - c,
        {
            if graph_path_exists(g, start, (row, c)) {
                return true;
            }
            c += 1;
        }
        proof {
            assert forall|cell: Coord| cell.0 == row implies !reachable(
                graph_edge_set(*g),
                start,
                cell,
            ) by {
                if reachable(graph_edge_set(*g), start, cell) {
                    crate::model::lemma_reachable_valid(size, graph_edge_set(*g), start, cell);
                    assert(cell.1 < size);
                    assert(!reachable(graph_edge_set(*g), start, (row, (cell.1 as int) as usize)));
                }
            }
        }
        false
    }

    /// The one or two board edges a wall at the given anchor would
    /// sever, or nothing when its span would leave the board.
    pub fn get_blocked_edges_by_wall(wall_coord: Coord, orientation: char, size: usize) -> (r:
        Option<((Coord, Coord), Option<(Coord, Coord)>)>)
        ensures
            r == spec_blocked_edges(wall_coord, orientation, size),
    {
        let (wr, wc) = wall_coord;
        let span_ok = size > 0 && wc < size - 1;
        if orientation == 'h' {
            if wr > 0 && span_ok {
                Some((((wr - 1, wc), (wr, wc)), Some(((wr - 1, wc + 1), (wr, wc + 1)))))
            } else {
                None
            }
        } else if orientation == 'v' {
            if wr > 0 && span_ok {
                Some((((wr, wc), (wr, wc + 1)), Some(((wr - 1, wc), (wr - 1, wc + 1)))))
            } else if wr == 0 && span_ok {
                Some((((wr, wc), (wr, wc + 1)), None))
            } else {
                None
            }
        } else {
            None
        }
    }

    /// Whether the player may place the given wall: stock, geometry,
    /// overlap and crossing rules, and the connectivity invariant.
    #[verifier::rlimit(100)]
    pub(crate) fn is_wall_placement_valid(&self, player: Player, w: Coord, o: char) -> (r: bool)
        requires
            self.wf(),
            valid_cell(self@.size, w),
            o == 'h' || o == 'v',
        ensures
            r == spec_wall_ok(self@, player, w, o),
    {
        proof {
            reveal(spec_wall_ok);
        }
        if self.walls_available(player) == 0 {
            return false;
        }
        if w.0 == 0 {
            return false;
        }
        // Overlap and crossing checks.
        let conflict: bool = if o == 'h' {
            Self::wall_list_contains(&self.hwall_positions, w) || (w.1 > 0
                && Self::wall_list_contains(&self.hwall_positions, (w.0, w.1 - 1))) || (w.1 + 1
                < self.size - 1 && Self::wall_list_contains(&self.hwall_positions, (w.0, w.1 + 1)))
                || Self::wall_list_contains(&self.vwall_positions, w) || (w.1 + 1 < self.size
                && Self::wall_list_contains(&self.vwall_positions, (w.0, w.1 + 1)))
        } else {
            Self::wall_list_contains(&self.vwall_positions, w) || (w.0 > 1
                && Self::wall_list_contains(&self.vwall_positions, (w.0 - 1, w.1))) || (w.0 + 1
                < self.size && Self::wall_list_contains(&self.vwall_positions, (w.0 + 1, w.1)))
                || Self::wall_list_contains(&self.hwall_positions, w) || (w.0 + 1 < self.size
                && Self::wall_list_contains(&self.hwall_positions, (w.0 + 1, w.1)))
        };
        if conflict {
            return false;
        }
        let blocked = Self::get_blocked_edges_by_wall(w, o, self.size);
        match blocked {
            None => false,
            Some((e1, oe2)) => {
                let mut tmp = graph_clone(&self.graph);
                if !graph_remove_edge(&mut tmp, e1.0, e1.1) {
                    return false;
                }
                match oe2 {
                    Some(e2) => {
                        if !graph_remove_edge(&mut tmp, e2.0, e2.1) {
                            return false;
                        }
                    },
                    None => {},
                }
                proof {
                    assert(graph_edge_set(tmp) == spec_edges_minus(self@, w, o));
                    assert forall|pr: (Coord, Coord)| #[trigger]
                        graph_edge_set(tmp).contains(pr) implies valid_cell(self@.size, pr.0)
                        && valid_cell(self@.size, pr.1) by {
                        assert(self@.edges().contains(pr));
                    }
                }
                let ok1 = Self::goal_row_reachable(&tmp, self.pawn1, 0, self.size);
                if !ok1 {
                    return false;
                }
                let ok2 = Self::goal_row_reachable(&tmp, self.pawn2, self.size - 1, self.size);
                ok2
            },
        }
    }

    /// Appends one wall candidate's label when it may be placed.
    fn push_wall_entry(&self, out: &mut Vec<String>, player: Player, r: usize, c: usize, o: char)
        requires
            self.wf(),
            1 <= r < self@.size,
            c < self@.size,
            o == 'h' || o == 'v',
        ensures
            final(out)@.map_values(|s: String| s@) == old(out)@.map_values(|s: String| s@)
                + spec_wall_entry(self@, player, r as int, c as int, o),
    {
        proof {
            reveal_strlit("h");
            reveal_strlit("v");
        }
        if self.is_wall_placement_valid(player, (r, c), o) {
            let label = self.coord_to_algebraic((r, c));
            let entry = if o == 'h' {
                label.concat("h")
            } else {
                label.concat("v")
            };
            proof {
                assert(entry@ =~= spec_coord_label((r, c), self@.size).push(o));
            }
            out.push(entry);
            proof {
                assert(out@.map_values(|s: String| s@) =~= old(out)@.map_values(|s: String| s@)
                    + spec_wall_entry(self@, player, r as int, c as int, o));
            }
        } else {
            proof {
                assert(out@.map_values(|s: String| s@) =~= old(out)@.map_values(|s: String| s@)
                    + spec_wall_entry(self@, player, r as int, c as int, o));
            }
        }
    }

    /// Every wall placement open to the player, as labels.
    #[verifier::rlimit(100)]
    pub fn get_legal_walls(&self, player: Player) -> (r: Vec<String>)
        requires
            self.wf(),
        ensures
            r@.map_values(|s: String| s@) == spec_legal_walls(self@, player),
    {
        let mut out: Vec<String> = Vec::new();
        proof {
            assert(out@.map_values(|s: String| s@) =~= Seq::<Seq<char>>::empty());
        }
        if self.walls_available(player) == 0 {
            return out;
        }
        let mut r: usize = 1;
        #[verifier::loop_isolation(false)]
        while r < self.size
            invariant
                1 <= r <= self.size,
                out@.map_values(|s: String| s@) == spec_walls_upto(self@, player, r as int),
            decreases self.size - r,
        {
            let mut c: usize = 0;
            #[verifier::loop_isolation(false)]
            while c + 1 < self.size
                invariant
                    c <= self.size - 1,
                    out@.map_values(|s: String| s@) == spec_walls_upto(self@, player, r as int)
                        + spec_walls_row_upto(self@, player, r as int, c as int),
                decreases self.size - c,
            {
                self.push_wall_entry(&mut out, player, r, c, 'h');
                self.push_wall_entry(&mut out, player, r, c, 'v');
                proof {
                    assert(out@.map_values(|s: String| s@) =~= spec_walls_upto(
                        self@,
                        player,
                        r as int,
                    ) + spec_walls_row_upto(self@, player, r as int, c + 1));
                }
                c += 1;
            }
            proof {
                assert(out@.map_values(|s: String| s@) =~= spec_walls_upto(
                    self@,
                    player,
                    r + 1,
                ));
            }
            r += 1;
        }
        out
    }

    /// Records a wall: the anchor joins its list and the severed edges
    /// leave the graph; outside setup, the stock, the turn and the
    /// bookkeeping strings advance.
    fn apply_wall(&mut self, w: Coord, o: char, mv: &str, is_init: bool)
        requires
            old(self).wf(),
            valid_cell(old(self)@.size, w),
            o == 'h' || o == 'v',
            !is_init ==> old(self)@.walls_of(old(self)@.active) > 0,
        ensures
            final(self).wf(),
            final(self)@ == spec_wall_applied(old(self)@, w, o, mv@, is_init),
    {
        let ghost m0 = self@;
        if o == 'h' {
            Self::insert_wall_sorted(&mut self.hwall_positions, w);
        } else {
            Self::insert_wall_sorted(&mut self.vwall_positions, w);
        }
        proof {
            if o == 'h' {
                lemma_insert_wall_props(m0.hwalls, w, m0.size);
            } else {
                lemma_insert_wall_props(m0.vwalls, w, m0.size);
            }
        }
        // Sever the wall's edges; an edge already gone is left alone.
        match Self::get_blocked_edges_by_wall(w, o, self.size) {
            Some((e1, oe2)) => {
                graph_remove_edge(&mut self.graph, e1.0, e1.1);
                match oe2 {
                    Some(e2) => {
                        graph_remove_edge(&mut self.graph, e2.0, e2.1);
                    },
                    None => {},
                }
            },
            None => {},
        }
        proof {
            if o == 'h' {
                lemma_hwall_edge_update(m0.size, m0.hwalls.to_set(), m0.vwalls.to_set(), w);
            } else {
                lemma_vwall_edge_update(m0.size, m0.hwalls.to_set(), m0.vwalls.to_set(), w);
            }
            assert(graph_edge_set(self.graph) == self@.edges());
        }
        if !is_init {
            self.previous_state = self.state_string.clone();
            match self.active_player {
                Player::Player1 => {
                    self.walls1 = self.walls1 - 1;
                },
                Player::Player2 => {
                    self.walls2 = self.walls2 - 1;
                },
            }
            self.last_move = String::from_str(mv);
            self.update_state_string(false);
        }
    }

    /// Attempts to place a wall for the active player.  `check`
    /// validates the placement first; `is_initialising` applies it
    /// without touching stock, turn or bookkeeping.  Returns whether
    /// the wall was placed; a rejected move leaves the state unchanged.
    pub fn add_wall(&mut self, wall_move: &str, is_initialising: bool, check: bool) -> (r: bool)
        requires
            old(self).wf(),
            check || is_initialising || old(self)@.walls_of(old(self)@.active) > 0,
        ensures
            final(self).wf(),
            r == spec_add_wall(old(self)@, wall_move@, is_initialising, check).0,
            final(self)@ == spec_add_wall(old(self)@, wall_move@, is_initialising, check).1,
    {
        let n = wall_move.unicode_len();
        if n < 3 {
            return false;
        }
        let o = wall_move.get_char(n - 1);
        if !(o == 'h' || o == 'v') {
            return false;
        }
        let pos = wall_move.substring_char(0, n - 1);
        proof {
            assert(pos@ =~= wall_move@.drop_last());
        }
        match algebraic_to_coord(pos, self.size) {
            Err(_) => false,
            Ok(w) => {
                if check {
                    if !self.is_wall_placement_valid(self.active_player, w, o) {
                        return false;
                    }
                    proof {
                        reveal(spec_wall_ok);
                    }
                }
                self.apply_wall(w, o, wall_move, is_initialising);
                true
            },
        }
    }

    /// Attempts to move the active player's pawn.  `check` demands the
    /// destination be among the legal moves; otherwise any decodable
    /// cell is accepted.  Returns whether the pawn moved; a rejected
    /// move leaves the state unchanged.
    pub fn move_pawn(&mut self, move_alg: &str, check: bool) -> (r: bool)
        requires
            old(self).wf(),
        ensures
            final(self).wf(),
            r == spec_move_pawn(old(self)@, move_alg@, check).0,
            final(self)@ == spec_move_pawn(old(self)@, move_alg@, check).1,
    {
        let dest = match algebraic_to_coord(move_alg, self.size) {
            Err(_) => {
                return false;
            },
            Ok(d) => d,
        };
        if check {
            let legal = self.get_legal_moves(self.active_player);
            let ms = String::from_str(move_alg);
            let mut found = false;
            let mut i: usize = 0;
            #[verifier::loop_isolation(false)]
            while i < legal.len()
                invariant
                    i <= legal@.len(),
                    found <==> exists|j: int|
                        0 <= j < i && #[trigger] legal@[j]@ == move_alg@,
                decreases legal@.len() - i,
            {
                if legal[i].eq(&ms) {
                    found = true;
                }
                i += 1;
            }
            if !found {
                proof {
                    let moves = spec_legal_moves(self@, self@.active);
                    if moves.contains(move_alg@) {
                        let j = choose|j: int| 0 <= j < moves.len() && moves[j] == move_alg@;
                        assert(legal@.map_values(|s: String| s@)[j] == move_alg@);
                        assert(legal@[j]@ == move_alg@);
                    }
                }
                return false;
            }
            proof {
                let moves = spec_legal_moves(self@, self@.active);
                let j = choose|j: int| 0 <= j < legal@.len() && legal@[j]@ == move_alg@;
                assert(legal@.map_values(|s: String| s@)[j] == move_alg@);
                assert(moves.contains(move_alg@));
            }
        }
        match self.active_player {
            Player::Player1 => {
                self.pawn1 = dest;
            },
            Player::Player2 => {
                self.pawn2 = dest;
            },
        }
        self.previous_state = self.state_string.clone();
        self.last_move = String::from_str(move_alg);
        self.update_state_string(false);
        proof {
            assert(final(self)@ == spec_move_pawn(old(self)@, move_alg@, check).1);
        }
        true
    }

    /// A faithful copy of the game, sharing nothing with the original.
    pub fn clone_state(&self) -> (r: Quoridor)
        requires
            self.wf(),
        ensures
            r.wf(),
            r@ == self@,
    {
        Quoridor {
            size: self.size,
            walls: self.walls,
            graph: graph_clone(&self.graph),
            hwall_positions: Self::copy_coord_vec(&self.hwall_positions),
            vwall_positions: Self::copy_coord_vec(&self.vwall_positions),
            pawn1: self.pawn1,
            pawn2: self.pawn2,
            walls1: self.walls1,
            walls2: self.walls2,
            active_player: self.active_player,
            state_string: self.state_string.clone(),
            previous_state: self.previous_state.clone(),
            last_move: self.last_move.clone(),
        }
    }
}

} // verus!
