//! The adjacency graph of the board, held in a `petgraph` undirected
//! graph keyed by cells.  The graph is reached only through the small
//! trusted interface below; its contents are named by `graph_edge_set`,
//! a symmetric relation on cells, and every contract is stated over
//! that name together with the path model of `model`.

use vstd::prelude::*;
use crate::notation::Coord;
use crate::model::{is_dist, reachable};

verus! {

/// Declares `petgraph`'s node-keyed graph so it can stand in fields
/// and signatures; the value is opaque to the verifier.
#[verifier::external_type_specification]
#[verifier::external_body]
#[verifier::reject_recursive_types(N)]
#[verifier::reject_recursive_types(E)]
#[verifier::reject_recursive_types(Ty)]
#[verifier::reject_recursive_types(S)]
pub struct ExGraphMap<N, E, Ty, S>(petgraph::graphmap::GraphMap<N, E, Ty, S>) where
    S: std::hash::BuildHasher;

/// Declares `petgraph`'s undirected edge-type marker.
#[verifier::external_type_specification]
#[verifier::external_body]
pub struct ExUndirected(petgraph::Undirected);

/// The board's adjacency graph: one node per cell, one edge per
/// unblocked orthogonal step.
pub type BoardGraph = petgraph::graphmap::UnGraphMap<Coord, ()>;

/// The edges a board graph holds, as a symmetric relation: whenever an
/// undirected edge joins `a` and `b`, the set holds both `(a, b)` and
/// `(b, a)`.
pub uninterp spec fn graph_edge_set(g: BoardGraph) -> Set<(Coord, Coord)>;

/// Relies on `petgraph::graphmap::GraphMap::new`: a fresh graph holds
/// no edges.
#[verifier::external_body]
pub(crate) fn graph_new() -> (g: BoardGraph)
    ensures
        graph_edge_set(g) == Set::<(Coord, Coord)>::empty(),
{
    petgraph::graphmap::UnGraphMap::new()
}

/// Relies on `petgraph::graphmap::GraphMap::add_edge`: on an undirected
/// graph it records the edge between `a` and `b`, in both directions of
/// the relation.
#[verifier::external_body]
pub(crate) fn graph_add_edge(g: &mut BoardGraph, a: Coord, b: Coord)
    ensures
        graph_edge_set(*final(g)) == graph_edge_set(*old(g)).insert((a, b)).insert((b, a)),
{
    g.add_edge(a, b, ());
}

/// Relies on `petgraph::graphmap::GraphMap::contains_edge`: on an
/// undirected graph the edge is found in either direction.
#[verifier::external_body]
pub(crate) fn graph_contains_edge(g: &BoardGraph, a: Coord, b: Coord) -> (r: bool)
    ensures
        r == graph_edge_set(*g).contains((a, b)),
{
    g.contains_edge(a, b)
}

/// Relies on `petgraph::graphmap::GraphMap::remove_edge`: it removes
/// the undirected edge between `a` and `b` — both directions of the
/// relation — and reports whether it existed.
#[verifier::external_body]
pub(crate) fn graph_remove_edge(g: &mut BoardGraph, a: Coord, b: Coord) -> (r: bool)
    ensures
        graph_edge_set(*final(g)) == graph_edge_set(*old(g)).remove((a, b)).remove((b, a)),
        r == graph_edge_set(*old(g)).contains((a, b)),
{
    g.remove_edge(a, b).is_some()
}

/// Relies on the derived `Clone` of `petgraph::graphmap::GraphMap`: the
/// copy holds the same edges.
#[verifier::external_body]
pub(crate) fn graph_clone(g: &BoardGraph) -> (r: BoardGraph)
    ensures
        graph_edge_set(r) == graph_edge_set(*g),
{
    g.clone()
}

/// Relies on `petgraph::algo::has_path_connecting`: a depth-first
/// search that reports whether some walk joins `a` to `b` (trivially so
/// when `a == b`).
#[verifier::external_body]
pub(crate) fn graph_path_exists(g: &BoardGraph, a: Coord, b: Coord) -> (r: bool)
    ensures
        r == reachable(graph_edge_set(*g), a, b),
{
    petgraph::algo::has_path_connecting(g, a, b, None)
}

/// The cost a step contributes to a path: every step counts one.
fn hop_cost(_w: &()) -> (r: usize)
    ensures
        r == 1,
{
    1
}

/// Relies on `petgraph::algo::dijkstra`: with every edge charged
/// `hop_cost` (one), it maps each node reachable from `start` — and no
/// other — to the least number of steps that reaches it.  The order of
/// the returned pairs is arbitrary.
#[verifier::external_body]
pub(crate) fn graph_hop_distances(g: &BoardGraph, start: Coord) -> (r: Vec<(Coord, usize)>)
    ensures
        forall|i: int|
            0 <= i < r@.len() ==> is_dist(
                graph_edge_set(*g),
                start,
                (#[trigger] r@[i]).0,
                r@[i].1 as nat,
            ),
        forall|c: Coord|
            #[trigger] reachable(graph_edge_set(*g), start, c) ==> exists|i: int|
                0 <= i < r@.len() && (#[trigger] r@[i]).0 == c,
{
    petgraph::algo::dijkstra(g, start, None, |e: (Coord, Coord, &())| hop_cost(e.2))
        .into_iter()
        .collect()
}

} // verus!
