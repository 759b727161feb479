//! The board: an undirected petgraph graph of locations.

use vstd::prelude::*;
use petgraph::graph::{NodeIndex, UnGraph};
use petgraph::visit::EdgeRef;
use crate::intel::{Intel, LocationId, PlayerId};

verus! {

#[verifier::external_type_specification]
#[verifier::external_body]
#[verifier::reject_recursive_types(N)]
#[verifier::reject_recursive_types(E)]
#[verifier::reject_recursive_types(Ty)]
#[verifier::reject_recursive_types(Ix)]
pub struct ExGraph<N, E, Ty, Ix>(petgraph::graph::Graph<N, E, Ty, Ix>);

#[verifier::external_type_specification]
#[verifier::external_body]
pub struct ExUndirected(petgraph::Undirected);

/// A node of the board.
#[derive(Debug, Clone, PartialEq, Eq)]
pub struct Location {
    /// One-shot bonus income collected by a player who starts a turn here.
    pub pending_powerup: Option<Intel>,
    /// Reserved for a third action per turn.
    pub boost: bool,
    /// Income per turn for the controlling player.
    pub base_income: Intel,
    pub name: String,
    /// This location's own handle.
    pub index: LocationId,
    /// Controlling player, if any.
    pub control: Option<PlayerId>,
}

/// The graph type that holds the board.
pub type Board = UnGraph<Location, ()>;

/// The node weights of a board, in index order.
pub uninterp spec fn board_nodes(g: Board) -> Seq<Location>;

/// The edges of a board as (endpoint, endpoint) pairs, in index order.
pub uninterp spec fn board_edges(g: Board) -> Seq<(nat, nat)>;

/// Whether the edge `e` joins `a` and `b`, in either direction.
pub open spec fn joins(e: (nat, nat), a: nat, b: nat) -> bool {
    (e.0 == a && e.1 == b) || (e.0 == b && e.1 == a)
}

/// Whether some edge joins `a` and `b`.
pub open spec fn has_edge(edges: Seq<(nat, nat)>, a: nat, b: nat) -> bool {
    exists|i: int| 0 <= i < edges.len() && #[trigger] joins(edges[i], a, b)
}

/// Whether no two edges join the same pair of nodes.
pub open spec fn simple(edges: Seq<(nat, nat)>) -> bool {
    forall|i: int, j: int|
        0 <= i < j < edges.len() ==> !joins(#[trigger] edges[j], #[trigger] edges[i].0, edges[i].1)
}

/// Relies on petgraph's `Graph::new_undirected`: a graph with no nodes and no edges.
#[verifier::external_body]
pub(crate) fn board_new() -> (r: Board)
    ensures
        board_nodes(r) == Seq::<Location>::empty(),
        board_edges(r) == Seq::<(nat, nat)>::empty(),
{
    UnGraph::new_undirected()
}

/// Relies on petgraph's `Graph::node_count`: the number of nodes.
#[verifier::external_body]
pub(crate) fn board_node_count(g: &Board) -> (r: usize)
    ensures
        r == board_nodes(*g).len(),
{
    g.node_count()
}

/// Relies on petgraph's `Graph::add_node`: the weight is appended and its index returned.
/// It panics only once the node index would reach `u32::MAX`.
#[verifier::external_body]
pub(crate) fn board_add_node(g: &mut Board, weight: Location) -> (r: usize)
    requires
        board_nodes(*old(g)).len() < u32::MAX,
    ensures
        r == board_nodes(*old(g)).len(),
        board_nodes(*final(g)) == board_nodes(*old(g)).push(weight),
        board_edges(*final(g)) == board_edges(*old(g)),
{
    g.add_node(weight).index()
}

/// Relies on petgraph's `Graph::add_edge`: the pair is appended to the edge list.
/// It panics on a missing endpoint or once the edge index would reach `u32::MAX`.
#[verifier::external_body]
pub(crate) fn board_add_edge(g: &mut Board, a: usize, b: usize)
    requires
        a < board_nodes(*old(g)).len(),
        b < board_nodes(*old(g)).len(),
        board_edges(*old(g)).len() < u32::MAX,
    ensures
        board_nodes(*final(g)) == board_nodes(*old(g)),
        board_edges(*final(g)) == board_edges(*old(g)).push((a as nat, b as nat)),
{
    g.add_edge(NodeIndex::new(a), NodeIndex::new(b), ());
}

/// Relies on petgraph's `Graph::find_edge`: on an undirected graph it finds an edge
/// between the two nodes in either direction.
#[verifier::external_body]
pub(crate) fn board_find_edge(g: &Board, a: usize, b: usize) -> (r: bool)
    requires
        a < board_nodes(*g).len(),
        b < board_nodes(*g).len(),
    ensures
        r == has_edge(board_edges(*g), a as nat, b as nat),
{
    g.find_edge(NodeIndex::new(a), NodeIndex::new(b)).is_some()
}

/// Relies on petgraph's `Graph::neighbors`: on an undirected graph, the other endpoint
/// of every edge at `a`, one item per edge (a self-loop is listed once).
#[verifier::external_body]
pub(crate) fn board_neighbors(g: &Board, a: usize) -> (r: Vec<usize>)
    requires
        a < board_nodes(*g).len(),
    ensures
        forall|x: usize| r@.contains(x) <==> has_edge(board_edges(*g), a as nat, x as nat),
        simple(board_edges(*g)) ==> r@.no_duplicates(),
{
    g.neighbors(NodeIndex::new(a)).map(|n| n.index()).collect()
}

/// Relies on petgraph's `Graph::node_weights`: every weight, in index order.
#[verifier::external_body]
pub(crate) fn board_node_weights(g: &Board) -> (r: Vec<Location>)
    ensures
        r@ == board_nodes(*g),
{
    g.node_weights().cloned().collect()
}

/// Relies on petgraph's `Index<NodeIndex>` for `Graph`: the weight at `i`.
#[verifier::external_body]
pub(crate) fn board_node(g: &Board, i: usize) -> (r: Location)
    requires
        i < board_nodes(*g).len(),
    ensures
        r == board_nodes(*g)[i as int],
{
    g[NodeIndex::new(i)].clone()
}

/// Relies on petgraph's `IndexMut<NodeIndex>` for `Graph`: the weight at `i` is replaced.
#[verifier::external_body]
pub(crate) fn board_set_node(g: &mut Board, i: usize, weight: Location)
    requires
        i < board_nodes(*old(g)).len(),
    ensures
        board_nodes(*final(g)) == board_nodes(*old(g)).update(i as int, weight),
        board_edges(*final(g)) == board_edges(*old(g)),
{
    g[NodeIndex::new(i)] = weight;
}

/// Relies on petgraph's `Graph::edge_references`: every edge, in index order.
#[verifier::external_body]
pub(crate) fn board_edge_list(g: &Board) -> (r: Vec<(usize, usize)>)
    ensures
        r@.len() == board_edges(*g).len(),
        forall|i: int| 0 <= i < r@.len() ==> (r@[i].0 as nat, r@[i].1 as nat) == #[trigger] board_edges(*g)[i],
{
    g.edge_references().map(|e| (e.source().index(), e.target().index())).collect()
}

} // verus!
