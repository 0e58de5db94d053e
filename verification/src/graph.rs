//! The directed graph of the `petgraph` crate, seen as a number of nodes and a list of edges.

use petgraph::graph::{DiGraph, NodeIndex};
use vstd::prelude::*;

verus! {

/// `petgraph::graph::Graph`, the type behind `petgraph::graph::DiGraph`.
#[verifier::external_type_specification]
#[verifier::external_body]
#[verifier::reject_recursive_types(N)]
#[verifier::reject_recursive_types(E)]
#[verifier::reject_recursive_types(Ty)]
#[verifier::reject_recursive_types(Ix)]
pub struct ExGraph<N, E, Ty, Ix>(petgraph::graph::Graph<N, E, Ty, Ix>);

/// `petgraph::Directed`, the marker that makes the edges of a graph one-way.
#[verifier::external_type_specification]
#[verifier::external_body]
pub struct ExDirected(petgraph::Directed);

/// How many nodes the graph has: they are numbered from 0 in the order of their addition.
pub uninterp spec fn graph_node_count(graph: DiGraph<(), ()>) -> nat;

/// The edges of the graph in the order of their addition, each with its source and its target.
pub uninterp spec fn graph_edges(graph: DiGraph<(), ()>) -> Seq<(usize, usize)>;

/// The walk that `petgraph::algo::astar` finds in a graph of these nodes and edges, where it finds
/// one, with one hop as the cost of each edge and no estimate. Its maps are never walked, so no
/// seed of a hasher has a say in it.
pub uninterp spec fn walk_found(
    node_count: nat,
    edges: Seq<(usize, usize)>,
    from: usize,
    to: usize,
) -> Seq<usize>;

/// Whether `walk` leads from node `from` to node `to` along `edges`, both ends included.
pub open spec fn is_walk(
    edges: Seq<(usize, usize)>,
    walk: Seq<usize>,
    from: usize,
    to: usize,
) -> bool {
    &&& walk.len() > 0
    &&& walk.first() == from
    &&& walk.last() == to
    &&& forall|i: int, j: int|
        0 <= i && j == i + 1 && j < walk.len() ==> edges.contains(
            (#[trigger] walk[i], #[trigger] walk[j]),
        )
}

/// Calls `petgraph::graph::Graph::new`: the graph has neither nodes nor edges.
#[verifier::external_body]
pub(crate) fn empty_graph() -> (graph: DiGraph<(), ()>)
    ensures
        graph_node_count(graph) == 0,
        graph_edges(graph) == Seq::<(usize, usize)>::empty(),
{
    DiGraph::new()
}

/// Calls `petgraph::graph::Graph::add_node`, which panics on a graph that already has as many
/// nodes as a `u32` can number: the new node is numbered by the nodes before it, and the edges
/// stay as they are.
#[verifier::external_body]
pub(crate) fn add_node(graph: &mut DiGraph<(), ()>) -> (node: usize)
    requires
        graph_node_count(*old(graph)) < u32::MAX,
    ensures
        node == graph_node_count(*old(graph)),
        graph_node_count(*final(graph)) == graph_node_count(*old(graph)) + 1,
        graph_edges(*final(graph)) == graph_edges(*old(graph)),
{
    graph.add_node(()).index()
}

/// Calls `petgraph::graph::Graph::add_edge`, which panics where a node does not exist or the
/// graph already has as many edges as a `u32` can number: the edge comes after the edges before
/// it, whether or not they hold its like, and the nodes stay as they are.
#[verifier::external_body]
pub(crate) fn add_edge(graph: &mut DiGraph<(), ()>, source: usize, target: usize)
    requires
        source < graph_node_count(*old(graph)),
        target < graph_node_count(*old(graph)),
        graph_edges(*old(graph)).len() < u32::MAX,
    ensures
        graph_node_count(*final(graph)) == graph_node_count(*old(graph)),
        graph_edges(*final(graph)) == graph_edges(*old(graph)).push((source, target)),
{
    graph.add_edge(NodeIndex::new(source), NodeIndex::new(target), ());
}

/// Whether the search has arrived.
fn is_goal(node: usize, goal: usize) -> (arrived: bool)
    ensures
        arrived == (node == goal),
{
    node == goal
}

/// Every edge counts as one hop.
fn hop_cost() -> (cost: u64)
    ensures
        cost == 1,
{
    1
}

/// The search gets no hint of how far the goal is, so it never overestimates.
fn no_estimate() -> (estimate: u64)
    ensures
        estimate == 0,
{
    0
}

/// Calls `petgraph::algo::astar` with one hop as the cost of each edge and no estimate: it finds
/// a walk where there is one, and then one of the fewest hops. The nodes, the edges and their
/// order, the start and the goal settle which one that is, where several have the fewest hops.
#[verifier::external_body]
pub(crate) fn shortest_walk(graph: &DiGraph<(), ()>, from: usize, to: usize) -> (found: Option<
    Vec<usize>,
>)
    requires
        from < graph_node_count(*graph),
        to < graph_node_count(*graph),
    ensures
        found is None ==> forall|walk: Seq<usize>| !is_walk(graph_edges(*graph), walk, from, to),
        found matches Some(shortest) ==> is_walk(graph_edges(*graph), shortest@, from, to),
        found matches Some(shortest) ==> forall|walk: Seq<usize>|
            is_walk(graph_edges(*graph), walk, from, to) ==> shortest@.len() <= walk.len(),
        found matches Some(shortest) ==> shortest@ == walk_found(
            graph_node_count(*graph),
            graph_edges(*graph),
            from,
            to,
        ),
{
    let start = NodeIndex::new(from);
    petgraph::algo::astar(
        graph,
        start,
        |node| is_goal(node.index(), to),
        |_edge| hop_cost(),
        |_node| no_estimate(),
    ).map(|(_cost, walk)| walk.into_iter().map(|node| node.index()).collect())
}

} // verus!
