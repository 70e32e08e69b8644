//! The layout of a factor graph for display: which measurements hang on
//! which variable.
//!
//! The adjacency is kept in a compressed sparse row graph. Such a graph
//! holds one edge for a pair of nodes at most, so of several factors between
//! the same two variables the display shows the first.

use crate::factor_graph::{Edge, FactorGraph};
use petgraph::csr::Csr;
use petgraph::visit::EdgeRef;
use petgraph::Directed;
use vstd::prelude::*;

verus! {

#[verifier::external_type_specification]
#[verifier::external_body]
#[verifier::reject_recursive_types(N)]
#[verifier::reject_recursive_types(E)]
#[verifier::reject_recursive_types(Ty)]
#[verifier::reject_recursive_types(Ix)]
pub struct ExCsr<N, E, Ty, Ix>(Csr<N, E, Ty, Ix>);

#[verifier::external_type_specification]
#[verifier::external_body]
pub struct ExDirected(Directed);

/// The node weights of a sparse row graph, by node index.
pub uninterp spec fn csr_nodes(graph: Csr<usize, usize, Directed, usize>) -> Seq<usize>;

/// The edge weights of a sparse row graph, by source and target node index.
pub uninterp spec fn csr_edges(graph: Csr<usize, usize, Directed, usize>) -> Map<(usize, usize), usize>;

/// `Csr::new`: a graph without nodes and edges.
#[verifier::external_body]
fn csr_new() -> (made: Csr<usize, usize, Directed, usize>)
    ensures
        csr_nodes(made).len() == 0,
        csr_edges(made).dom() == Set::<(usize, usize)>::empty(),
{
    Csr::new()
}

/// `Csr::add_node`: appends a node with the given weight, behind the nodes
/// that are there. The edges stay.
#[verifier::external_body]
fn csr_add_node(graph: &mut Csr<usize, usize, Directed, usize>, weight: usize)
    ensures
        csr_nodes(*final(graph)) == csr_nodes(*old(graph)).push(weight),
        csr_edges(*final(graph)) == csr_edges(*old(graph)),
{
    graph.add_node(weight);
}

/// `Csr::add_edge` between two nodes of the graph: adds the edge and
/// returns `true`, unless the graph holds an edge from `a` to `b` already;
/// then it returns `false` and changes nothing. The nodes stay.
#[verifier::external_body]
fn csr_add_edge(graph: &mut Csr<usize, usize, Directed, usize>, a: usize, b: usize, weight: usize) -> (added: bool)
    requires
        a < csr_nodes(*old(graph)).len(),
        b < csr_nodes(*old(graph)).len(),
    ensures
        added == !csr_edges(*old(graph)).contains_key((a, b)),
        csr_edges(*final(graph)) == if added {
            csr_edges(*old(graph)).insert((a, b), weight)
        } else {
            csr_edges(*old(graph))
        },
        csr_nodes(*final(graph)) == csr_nodes(*old(graph)),
{
    graph.add_edge(a, b, weight)
}

/// `Csr::edges` of a node of the graph, each edge as its target and its
/// weight: the edges that leave `a`, by ascending target.
#[verifier::external_body]
fn csr_out_edges(graph: &Csr<usize, usize, Directed, usize>, a: usize) -> (out: Vec<(usize, usize)>)
    requires
        a < csr_nodes(*graph).len(),
    ensures
        forall|i: int, j: int| 0 <= i < j < out@.len() ==> out@[i].0 < out@[j].0,
        forall|i: int|
            0 <= i < out@.len() ==> csr_edges(*graph).contains_key((a, (#[trigger] out@[i]).0))
                && csr_edges(*graph)[(a, out@[i].0)] == out@[i].1,
        forall|b: usize| #[trigger]
            csr_edges(*graph).contains_key((a, b)) ==> exists|i: int|
                0 <= i < out@.len() && (#[trigger] out@[i]).0 == b,
{
    graph.edges(a).map(|edge| (edge.target(), *edge.weight())).collect()
}

/// Indexing a `Csr` by a node of the graph: the weight of that node.
#[verifier::external_body]
fn csr_node_weight(graph: &Csr<usize, usize, Directed, usize>, a: usize) -> (weight: usize)
    requires
        a < csr_nodes(*graph).len(),
    ensures
        weight == csr_nodes(*graph)[a as int],
{
    graph[a]
}

/// The node at which a factor ends: its target, or for a prior, which has
/// none, the vehicle it starts from.
pub open spec fn edge_end(edge: Edge) -> usize {
    match edge.target {
        Some(t) => t,
        None => edge.source,
    }
}

/// The factor leads from node `a` to node `b`.
pub open spec fn connects(edge: Edge, a: usize, b: usize) -> bool {
    edge.source == a && edge_end(edge) == b
}

/// Factor `k` is the first of `edges` that leads from `a` to `b`.
pub open spec fn first_between(edges: Seq<Edge>, a: usize, b: usize, k: int) -> bool {
    &&& 0 <= k < edges.len()
    &&& connects(edges[k], a, b)
    &&& forall|j: int| 0 <= j < k ==> !connects(#[trigger] edges[j], a, b)
}

/// `csr` holds a node for every variable, weighted with its id, and for
/// every pair of nodes that a factor of `edges` connects one edge, weighted
/// with the position of the first such factor.
pub open spec fn is_adjacency(
    graph: FactorGraph,
    edges: Seq<Edge>,
    csr: Csr<usize, usize, Directed, usize>,
) -> bool {
    &&& csr_nodes(csr).len() == graph.variables().len()
    &&& forall|i: int|
        0 <= i < graph.variables().len() ==> #[trigger] csr_nodes(csr)[i] == graph.variables()[i].id()
    &&& forall|a: usize, b: usize| #[trigger]
        csr_edges(csr).contains_key((a, b)) ==> first_between(
            edges,
            a,
            b,
            csr_edges(csr)[(a, b)] as int,
        )
    &&& forall|k: int|
        0 <= k < edges.len() ==> csr_edges(csr).contains_key(
            ((#[trigger] edges[k]).source, edge_end(edges[k])),
        )
}

/// The adjacency of a graph as a sparse row graph: node `i` is the variable
/// at position `i`.
pub fn adjacency(graph: &FactorGraph) -> (csr: Csr<usize, usize, Directed, usize>)
    requires
        graph.wf(),
    ensures
        is_adjacency(*graph, graph.edges(), csr),
{
    let mut csr = csr_new();
    let mut i: usize = 0;
    while i < graph.variable_count()
        invariant
            i <= graph.variables().len(),
            csr_nodes(csr).len() == i,
            forall|j: int| 0 <= j < i ==> #[trigger] csr_nodes(csr)[j] == graph.variables()[j].id(),
            csr_edges(csr).dom() == Set::<(usize, usize)>::empty(),
        decreases graph.variables().len() - i,
    {
        csr_add_node(&mut csr, graph.variable_at(i).get_id());
        i += 1;
    }
    let mut k: usize = 0;
    while k < graph.factor_count()
        invariant
            graph.wf(),
            k <= graph.edges().len(),
            is_adjacency(*graph, graph.edges().take(k as int), csr),
        decreases graph.edges().len() - k,
    {
        let edge = graph.edge_at(k);
        let a: usize = edge.source;
        let b: usize = match edge.target {
            Some(t) => t,
            None => edge.source,
        };
        assert(crate::factor_graph::edge_resolves(graph.variables(), graph.edges()[k as int]));
        let ghost before = csr;
        let ghost seen = graph.edges().take(k as int);
        let ghost grown = graph.edges().take(k + 1);
        let added: bool = csr_add_edge(&mut csr, a, b, k);
        proof {
            assert(grown[k as int] == graph.edges()[k as int]);
            assert forall|j: int| 0 <= j < k implies grown[j] == seen[j] by {}
            assert forall|x: usize, y: usize| #[trigger]
                csr_edges(csr).contains_key((x, y)) implies first_between(
                grown,
                x,
                y,
                csr_edges(csr)[(x, y)] as int,
            ) by {
                if csr_edges(before).contains_key((x, y)) {
                    let first = csr_edges(before)[(x, y)] as int;
                    assert(first_between(seen, x, y, first));
                    assert(csr_edges(csr)[(x, y)] == first);
                    assert forall|j: int| 0 <= j < first implies !connects(
                        #[trigger] grown[j],
                        x,
                        y,
                    ) by {
                        assert(grown[j] == seen[j]);
                    }
                } else {
                    assert(added && x == a && y == b);
                    assert forall|j: int| 0 <= j < k implies !connects(#[trigger] grown[j], x, y) by {
                        assert(grown[j] == seen[j]);
                        if connects(seen[j], x, y) {
                            assert(csr_edges(before).contains_key((seen[j].source, edge_end(seen[j]))));
                        }
                    }
                }
            }
            assert forall|j: int| 0 <= j < grown.len() implies csr_edges(csr).contains_key(
                ((#[trigger] grown[j]).source, edge_end(grown[j])),
            ) by {
                if j < k {
                    assert(grown[j] == seen[j]);
                    assert(csr_edges(before).contains_key((seen[j].source, edge_end(seen[j]))));
                }
            }
        }
        k += 1;
    }
    assert(graph.edges().take(k as int) == graph.edges());
    csr
}

/// A measurement as the display shows it: the position of the factor and
/// the position of the variable at which it ends.
#[derive(Debug, Clone, Copy, PartialEq, Eq, Structural)]
pub struct VisualEdge {
    pub factor: usize,
    pub target: usize,
}

/// A variable as the display shows it, with the measurements that start
/// from it.
#[derive(Debug)]
pub struct VisualNode {
    pub id: usize,
    pub measurements: Vec<VisualEdge>,
}

/// `shown` lists what the display hangs on node `a`: for every node at
/// which a factor from `a` ends, the first such factor; by ascending end.
pub open spec fn node_shows(edges: Seq<Edge>, a: usize, shown: Seq<VisualEdge>) -> bool {
    &&& forall|i: int, j: int| 0 <= i < j < shown.len() ==> shown[i].target < shown[j].target
    &&& forall|i: int|
        0 <= i < shown.len() ==> first_between(
            edges,
            a,
            (#[trigger] shown[i]).target,
            shown[i].factor as int,
        )
    &&& forall|k: int|
        0 <= k < edges.len() && (#[trigger] edges[k]).source == a ==> exists|i: int|
            0 <= i < shown.len() && (#[trigger] shown[i]).target == edge_end(edges[k])
}

/// The measurements that the display hangs on node `a` of an adjacency.
fn measurements_of(
    graph: &FactorGraph,
    csr: &Csr<usize, usize, Directed, usize>,
    a: usize,
) -> (shown: Vec<VisualEdge>)
    requires
        is_adjacency(*graph, graph.edges(), *csr),
        a < graph.variables().len(),
    ensures
        node_shows(graph.edges(), a, shown@),
{
    let out = csr_out_edges(csr, a);
    let mut shown: Vec<VisualEdge> = Vec::new();
    let mut i: usize = 0;
    while i < out.len()
        invariant
            i <= out@.len(),
            shown@.len() == i,
            forall|j: int|
                0 <= j < i ==> (#[trigger] shown@[j]).target == out@[j].0 && shown@[j].factor
                    == out@[j].1,
        decreases out@.len() - i,
    {
        shown.push(VisualEdge { factor: out[i].1, target: out[i].0 });
        i += 1;
    }
    proof {
        let edges = graph.edges();
        assert forall|i: int, j: int| 0 <= i < j < shown@.len() implies shown@[i].target
            < shown@[j].target by {
            assert(out@[i].0 < out@[j].0);
        }
        assert forall|i: int| 0 <= i < shown@.len() implies first_between(
            edges,
            a,
            (#[trigger] shown@[i]).target,
            shown@[i].factor as int,
        ) by {
            assert(csr_edges(*csr).contains_key((a, out@[i].0)));
        }
        assert forall|k: int| 0 <= k < edges.len() && (#[trigger] edges[k]).source == a implies exists|
            i: int,
        |
            0 <= i < shown@.len() && (#[trigger] shown@[i]).target == edge_end(edges[k]) by {
            assert(csr_edges(*csr).contains_key((edges[k].source, edge_end(edges[k]))));
            let i = choose|i: int| 0 <= i < out@.len() && (#[trigger] out@[i]).0 == edge_end(edges[k]);
            assert(shown@[i].target == edge_end(edges[k]));
        }
    }
    shown
}

/// The layout of a graph for display: one node for every variable, in
/// insertion order, each with the measurements that start from it.
pub fn scene(graph: &FactorGraph) -> (nodes: Vec<VisualNode>)
    requires
        graph.wf(),
    ensures
        nodes@.len() == graph.variables().len(),
        forall|a: int|
            0 <= a < nodes@.len() ==> (#[trigger] nodes@[a]).id == graph.variables()[a].id()
                && node_shows(graph.edges(), a as usize, nodes@[a].measurements@),
{
    let csr = adjacency(graph);
    let mut nodes: Vec<VisualNode> = Vec::new();
    let mut a: usize = 0;
    while a < graph.variable_count()
        invariant
            a <= graph.variables().len(),
            is_adjacency(*graph, graph.edges(), csr),
            nodes@.len() == a,
            forall|i: int|
                0 <= i < a ==> (#[trigger] nodes@[i]).id == graph.variables()[i].id() && node_shows(
                    graph.edges(),
                    i as usize,
                    nodes@[i].measurements@,
                ),
        decreases graph.variables().len() - a,
    {
        let id: usize = csr_node_weight(&csr, a);
        let measurements = measurements_of(graph, &csr, a);
        nodes.push(VisualNode { id, measurements });
        a += 1;
    }
    nodes
}

} // verus!
