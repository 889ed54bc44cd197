use vstd::prelude::*;
use petgraph::graph::{Graph, NodeIndex};
use petgraph::Directed;

verus! {

#[verifier::external_type_specification]
#[verifier::external_body]
#[verifier::reject_recursive_types(N)]
#[verifier::reject_recursive_types(E)]
#[verifier::reject_recursive_types(Ty)]
#[verifier::reject_recursive_types(Ix)]
pub struct ExGraph<N, E, Ty, Ix>(Graph<N, E, Ty, Ix>);

#[verifier::external_type_specification]
#[verifier::external_body]
pub struct ExDirected(Directed);

/// The include graph: one node per loaded file, one edge per include.
pub type IncludeGraph = Graph<(), (), Directed, u32>;

/// The edges of an include graph, in the order they were added, each as the
/// indices of its two nodes.
pub uninterp spec fn graph_edges(g: IncludeGraph) -> Seq<(usize, usize)>;

/// The number of nodes of an include graph.
pub uninterp spec fn graph_node_count(g: IncludeGraph) -> nat;

/// Whether `edges` holds an edge from `a` to `b`.
pub open spec fn has_edge(edges: Seq<(usize, usize)>, a: int, b: int) -> bool {
    exists|j: int| 0 <= j < edges.len() && edges[j].0 == a && edges[j].1 == b
}

/// Whether `p` is a closed walk of at least one step along `edges`.
pub open spec fn is_cycle(edges: Seq<(usize, usize)>, p: Seq<int>) -> bool {
    &&& p.len() >= 2
    &&& p[0] == p[p.len() - 1]
    &&& forall|i: int| 0 <= i < p.len() - 1 ==> #[trigger] has_edge(edges, p[i], p[i + 1])
}

/// Whether the directed graph with these edges has a cycle.
pub open spec fn has_cycle(edges: Seq<(usize, usize)>) -> bool {
    exists|p: Seq<int>| is_cycle(edges, p)
}

/// `DiGraph::new`: a graph without nodes or edges.
#[verifier::external_body]
pub(crate) fn graph_new() -> (g: IncludeGraph)
    ensures
        graph_edges(g) == Seq::<(usize, usize)>::empty(),
        graph_node_count(g) == 0,
{
    Graph::new()
}

/// `Graph::add_node`: adds a node, whose index is the former node count.
/// It panics when the count would reach the largest `u32`, which the
/// `requires` leaves out.
#[verifier::external_body]
pub(crate) fn graph_add_node(g: &mut IncludeGraph) -> (r: usize)
    requires
        graph_node_count(*old(g)) + 1 < u32::MAX,
    ensures
        r == graph_node_count(*old(g)),
        graph_node_count(*final(g)) == graph_node_count(*old(g)) + 1,
        graph_edges(*final(g)) == graph_edges(*old(g)),
{
    g.add_node(()).index()
}

/// `Graph::add_edge`: appends an edge from `a` to `b`. It panics when a node
/// does not exist or when the edge count would reach the largest `u32`,
/// which the `requires` leaves out.
#[verifier::external_body]
pub(crate) fn graph_add_edge(g: &mut IncludeGraph, a: usize, b: usize)
    requires
        a < graph_node_count(*old(g)),
        b < graph_node_count(*old(g)),
        graph_edges(*old(g)).len() + 1 < u32::MAX,
    ensures
        graph_edges(*final(g)) == graph_edges(*old(g)).push((a, b)),
        graph_node_count(*final(g)) == graph_node_count(*old(g)),
{
    g.add_edge(NodeIndex::new(a), NodeIndex::new(b), ());
}

/// `petgraph::algo::is_cyclic_directed`: whether the graph has a cycle.
#[verifier::external_body]
pub(crate) fn graph_is_cyclic(g: &IncludeGraph) -> (r: bool)
    ensures
        r == has_cycle(graph_edges(*g)),
{
    petgraph::algo::is_cyclic_directed(g)
}

} // verus!
