//! What it means for a labelling to be a total Roman dominating function.

use vstd::prelude::*;

verus! {

/// Some neighbour carries the label 2.
pub open spec fn has_neighbor_labeled_two(genes: Seq<u8>, neighbors: Set<usize>) -> bool {
    exists|u: usize| #[trigger] neighbors.contains(u) && genes[u as int] == 2
}

/// Some neighbour carries a label greater than 0.
pub open spec fn has_positive_neighbor(genes: Seq<u8>, neighbors: Set<usize>) -> bool {
    exists|u: usize| #[trigger] neighbors.contains(u) && genes[u as int] > 0
}

/// The condition on a single vertex: a vertex labelled 0 has a neighbour
/// labelled 2, a vertex labelled 1 or 2 has a neighbour with a positive
/// label, and no other label is admitted.
pub open spec fn is_dominated(genes: Seq<u8>, vertex: int, neighbors: Set<usize>) -> bool {
    let label = genes[vertex];
    if label == 0 {
        has_neighbor_labeled_two(genes, neighbors)
    } else if label <= 2 {
        has_positive_neighbor(genes, neighbors)
    } else {
        false
    }
}

/// The number of vertices of a graph.
pub open spec fn order(graph: Map<usize, Set<usize>>) -> nat {
    graph.dom().len()
}

/// The labelling is a total Roman dominating function of the graph: each
/// of the identifiers from 0 up to the number of vertices names a vertex,
/// and that vertex is dominated.
pub open spec fn is_total_roman_dominating(genes: Seq<u8>, graph: Map<usize, Set<usize>>) -> bool {
    forall|v: usize|
        #![trigger graph.contains_key(v)]
        v < order(graph) ==> graph.contains_key(v) && is_dominated(genes, v as int, graph[v])
}

/// A labelling of `len` positions covers the graph when it has a position
/// for each of the identifiers from 0 up to the number of vertices and for
/// every neighbour of the vertices among them.
pub open spec fn labels_cover(len: nat, graph: Map<usize, Set<usize>>) -> bool {
    &&& order(graph) <= len
    &&& forall|v: usize, u: usize|
        v < order(graph) && graph.contains_key(v) && #[trigger] graph[v].contains(u) ==> u < len
}

/// Without vertices there is nothing to dominate: every labelling is a
/// total Roman dominating function of the empty graph.
pub proof fn lemma_empty_graph_is_dominated(genes: Seq<u8>)
    ensures
        is_total_roman_dominating(genes, Map::<usize, Set<usize>>::empty()),
{
    assert(Map::<usize, Set<usize>>::empty().dom() =~= Set::<usize>::empty());
}

/// A vertex without neighbours is dominated under no labelling.
pub proof fn lemma_isolated_vertex_is_not_dominated(genes: Seq<u8>, vertex: int)
    ensures
        !is_dominated(genes, vertex, Set::<usize>::empty()),
{
}

/// A graph of one vertex and no edge has no total Roman dominating
/// function, whatever label the vertex is given.
pub proof fn lemma_lone_vertex_is_never_dominated(
    genes: Seq<u8>,
    graph: Map<usize, Set<usize>>,
    vertex: usize,
)
    requires
        graph.dom() == set![vertex],
        graph[vertex] == Set::<usize>::empty(),
    ensures
        !is_total_roman_dominating(genes, graph),
{
    assert(set![vertex].len() == 1) by {
        assert(set![vertex] =~= Set::<usize>::empty().insert(vertex));
    }
    assert(order(graph) == 1);
    if vertex == 0 {
        lemma_isolated_vertex_is_not_dominated(genes, 0);
        assert(graph.contains_key(0usize));
    } else {
        assert(!graph.contains_key(0usize));
    }
}

} // verus!
