//! The mathematical model of the board: cells, wall-aware adjacency,
//! paths and hop distances.  Everything here is specification-level;
//! the executable board in `board` is verified against these
//! definitions.

use vstd::prelude::*;
use crate::notation::Coord;
use crate::player::Player;

verus! {

/// A cell that lies on a board of the given size.
pub open spec fn valid_cell(size: usize, c: Coord) -> bool {
    c.0 < size && c.1 < size
}

/// Whether a horizontal wall in `h` blocks the vertical step between
/// `(r-1, c)` and `(r, c)`.  A horizontal wall anchored at `(r, w)`
/// spans columns `w` and `w+1` of that boundary, provided the anchor
/// leaves room for its two-cell span (`w + 1 < size`).
pub open spec fn vstep_blocked(h: Set<Coord>, size: usize, r: usize, c: usize) -> bool {
    (c + 1 < size && h.contains((r, c))) || (c >= 1 && h.contains((r, (c - 1) as usize)))
}

/// Whether a vertical wall in `v` blocks the horizontal step between
/// `(r, c)` and `(r, c+1)`.  A vertical wall anchored at `(w, c)` spans
/// rows `w` and `w-1` of that boundary; an anchor on the top row spans
/// only its own row.
pub open spec fn hstep_blocked(v: Set<Coord>, size: usize, r: usize, c: usize) -> bool {
    v.contains((r, c)) || (r + 1 < size && v.contains((((r + 1) as usize), c)))
}

/// Whether two cells are joined on the board: orthogonally adjacent,
/// within bounds, and not separated by a wall.
pub open spec fn edge_in_board(
    size: usize,
    h: Set<Coord>,
    v: Set<Coord>,
    a: Coord,
    b: Coord,
) -> bool {
    valid_cell(size, a) && valid_cell(size, b) && (
    (a.1 == b.1 && a.0 + 1 == b.0 && !vstep_blocked(h, size, b.0, b.1)) || (a.1 == b.1 && b.0 + 1
        == a.0 && !vstep_blocked(h, size, a.0, a.1)) || (a.0 == b.0 && a.1 + 1 == b.1
        && !hstep_blocked(v, size, a.0, a.1)) || (a.0 == b.0 && b.1 + 1 == a.1 && !hstep_blocked(
        v,
        size,
        a.0,
        b.1,
    )))
}

/// The adjacency of a board with the given wall sets, as a symmetric
/// relation on cells.
pub open spec fn board_edges(size: usize, h: Set<Coord>, v: Set<Coord>) -> Set<(Coord, Coord)> {
    Set::new(|pr: (Coord, Coord)| edge_in_board(size, h, v, pr.0, pr.1))
}

/// Every consecutive pair of `p` is an edge.
pub open spec fn is_path(edges: Set<(Coord, Coord)>, p: Seq<Coord>) -> bool {
    forall|i: int| 0 <= i < p.len() - 1 ==> edges.contains((#[trigger] p[i], p[i + 1]))
}

/// `p` is a walk from `a` to `b` along `edges`.
pub open spec fn connects(edges: Set<(Coord, Coord)>, p: Seq<Coord>, a: Coord, b: Coord) -> bool {
    p.len() >= 1 && p[0] == a && p.last() == b && is_path(edges, p)
}

/// Some walk of exactly `n` steps leads from `a` to `b`.
pub open spec fn has_path_len(edges: Set<(Coord, Coord)>, a: Coord, b: Coord, n: nat) -> bool {
    exists|p: Seq<Coord>| connects(edges, p, a, b) && p.len() == n + 1
}

/// Some walk leads from `a` to `b`.
pub open spec fn reachable(edges: Set<(Coord, Coord)>, a: Coord, b: Coord) -> bool {
    exists|n: nat| has_path_len(edges, a, b, n)
}

/// `d` is the least number of steps from `a` to `b`.
pub open spec fn is_dist(edges: Set<(Coord, Coord)>, a: Coord, b: Coord, d: nat) -> bool {
    has_path_len(edges, a, b, d) && (forall|m: nat| m < d ==> !has_path_len(edges, a, b, m))
}

/// Some cell of the given row can be reached from `a`.
pub open spec fn row_reachable(edges: Set<(Coord, Coord)>, a: Coord, row: usize) -> bool {
    exists|c: Coord| c.0 == row && reachable(edges, a, c)
}

/// `d` is the least number of steps from `a` to any cell of the row.
pub open spec fn is_row_dist(edges: Set<(Coord, Coord)>, a: Coord, row: usize, d: nat) -> bool {
    (exists|c: Coord| c.0 == row && has_path_len(edges, a, c, d)) && (forall|m: nat, c: Coord|
        m < d && c.0 == row ==> !has_path_len(edges, a, c, m))
}

/// The least number of steps from `a` to the row, when one exists.
pub open spec fn spec_row_dist(edges: Set<(Coord, Coord)>, a: Coord, row: usize) -> nat {
    choose|d: nat| is_row_dist(edges, a, row, d)
}

/// The distance reported to a row: the least number of steps when the
/// row can be reached, and the sentinel 100 when it cannot.
pub open spec fn spec_row_distance(edges: Set<(Coord, Coord)>, a: Coord, row: usize) -> int {
    if row_reachable(edges, a, row) {
        spec_row_dist(edges, a, row) as int
    } else {
        100
    }
}

/// A least distance never exceeds the length of any walk.
pub proof fn lemma_dist_le(edges: Set<(Coord, Coord)>, a: Coord, b: Coord, d: nat, m: nat)
    requires
        is_dist(edges, a, b, d),
        has_path_len(edges, a, b, m),
    ensures
        d <= m,
{
}

/// Least row distances are unique.
pub proof fn lemma_row_dist_unique(
    edges: Set<(Coord, Coord)>,
    a: Coord,
    row: usize,
    d1: nat,
    d2: nat,
)
    requires
        is_row_dist(edges, a, row, d1),
        is_row_dist(edges, a, row, d2),
    ensures
        d1 == d2,
{
}

/// Any walk endpoint is a valid cell whenever the walk starts at a
/// valid cell and the edges join only valid cells.
pub proof fn lemma_reachable_valid(size: usize, edges: Set<(Coord, Coord)>, a: Coord, b: Coord)
    requires
        reachable(edges, a, b),
        valid_cell(size, a),
        forall|pr: (Coord, Coord)| #[trigger] edges.contains(pr) ==> valid_cell(size, pr.0)
            && valid_cell(size, pr.1),
    ensures
        valid_cell(size, b),
{
    let n = choose|n: nat| has_path_len(edges, a, b, n);
    let p = choose|p: Seq<Coord>| connects(edges, p, a, b) && p.len() == n + 1;
    if p.len() == 1 {
        assert(b == a);
    } else {
        let i = p.len() - 2;
        assert(edges.contains((p[i], p[i + 1])));
        assert(p[p.len() - 1] == b);
    }
}

/// The game state: board geometry, the two wall sets, the two pawns
/// with their wall stocks, the active player, and the bookkeeping
/// strings.
pub ghost struct GameModel {
    /// Cells per side.
    pub size: usize,
    /// Walls each player starts with.
    pub walls: usize,
    /// Horizontal wall anchors, kept strictly sorted in rendering order.
    pub hwalls: Seq<Coord>,
    /// Vertical wall anchors, kept strictly sorted in rendering order.
    pub vwalls: Seq<Coord>,
    /// First player's pawn cell.
    pub pawn1: Coord,
    /// Second player's pawn cell.
    pub pawn2: Coord,
    /// Walls the first player may still place.
    pub walls1: usize,
    /// Walls the second player may still place.
    pub walls2: usize,
    /// Whose turn it is.
    pub active: Player,
    /// The serialized state.
    pub state_string: Seq<char>,
    /// The serialized state before the last move.
    pub previous_state: Seq<char>,
    /// The last move, in algebraic notation.
    pub last_move: Seq<char>,
}

impl GameModel {
    /// The adjacency the wall sets induce.
    pub open spec fn edges(self) -> Set<(Coord, Coord)> {
        board_edges(self.size, self.hwalls.to_set(), self.vwalls.to_set())
    }

    /// The pawn cell of a player.
    pub open spec fn pawn(self, p: Player) -> Coord {
        match p {
            Player::Player1 => self.pawn1,
            Player::Player2 => self.pawn2,
        }
    }

    /// The walls a player may still place.
    pub open spec fn walls_of(self, p: Player) -> usize {
        match p {
            Player::Player1 => self.walls1,
            Player::Player2 => self.walls2,
        }
    }

    /// The row a player races toward: the top row for the first player,
    /// the bottom row for the second.
    pub open spec fn goal_row(self, p: Player) -> usize {
        match p {
            Player::Player1 => 0usize,
            Player::Player2 => (self.size - 1) as usize,
        }
    }
}

} // verus!
