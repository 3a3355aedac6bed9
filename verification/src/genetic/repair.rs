//! The single-pass repair of a labelling, as a function of the neighbours
//! that are picked along the way, and what holds of every such pass.

use crate::genetic::chromosome::gene_sum;
use crate::genetic::domination::{
    has_neighbor_labeled_two, has_positive_neighbor, is_dominated, is_total_roman_dominating,
    labels_cover, order,
};
use vstd::prelude::*;

verus! {

/// The label that some neighbour of `vertex` has to be raised to: 2 where
/// the vertex is labelled 0 and no neighbour carries a 2, 1 where it is
/// labelled 1 or 2 and no neighbour carries a positive label, and nothing
/// where the vertex has its support or carries no label of the three.
pub open spec fn missing_support(genes: Seq<u8>, vertex: int, neighbors: Set<usize>) -> Option<u8> {
    let label = genes[vertex];
    if label == 0 && !has_neighbor_labeled_two(genes, neighbors) {
        Some(2u8)
    } else if 1 <= label <= 2 && !has_positive_neighbor(genes, neighbors) {
        Some(1u8)
    } else {
        None
    }
}

/// Whether the visit of `vertex` raises the label at `position`: the vertex
/// misses its support and `position` is the neighbour picked to give it.
pub open spec fn raises(
    genes: Seq<u8>,
    vertex: int,
    neighbors: Set<usize>,
    pick: usize,
    position: int,
) -> bool {
    missing_support(genes, vertex, neighbors) is Some && neighbors.contains(pick) && pick
        == position
}

/// The labelling after the visit of one vertex. A label other than 0, 1
/// and 2 is reset to 0 and nothing else is done. Otherwise, where the
/// vertex misses its support, the picked neighbour is raised to the
/// missing label; a pick that is no neighbour changes nothing, which is
/// what happens at a vertex without neighbours.
pub open spec fn repair_vertex(
    genes: Seq<u8>,
    vertex: int,
    neighbors: Set<usize>,
    pick: usize,
) -> Seq<u8> {
    if genes[vertex] > 2 {
        genes.update(vertex, 0u8)
    } else {
        match missing_support(genes, vertex, neighbors) {
            Some(label) => if neighbors.contains(pick) {
                genes.update(pick as int, label)
            } else {
                genes
            },
            None => genes,
        }
    }
}

/// The labelling after the visits of the identifiers below `count`, in
/// increasing order, each visit seeing what the earlier ones changed.
/// `picks[v]` is the neighbour picked at the visit of `v`; an identifier
/// that names no vertex of the graph is passed over.
pub open spec fn repair_through(
    genes: Seq<u8>,
    graph: Map<usize, Set<usize>>,
    picks: Seq<usize>,
    count: usize,
) -> Seq<u8>
    decreases count,
{
    if count == 0 {
        genes
    } else {
        let vertex = (count - 1) as usize;
        let earlier = repair_through(genes, graph, picks, vertex);
        if graph.contains_key(vertex) {
            repair_vertex(earlier, vertex as int, graph[vertex], picks[vertex as int])
        } else {
            earlier
        }
    }
}

/// Whether one of the visits below `count` raises the label at `position`.
pub open spec fn is_raised(
    genes: Seq<u8>,
    graph: Map<usize, Set<usize>>,
    picks: Seq<usize>,
    count: usize,
    position: int,
) -> bool
    decreases count,
{
    if count == 0 {
        false
    } else {
        let vertex = (count - 1) as usize;
        let earlier = repair_through(genes, graph, picks, vertex);
        is_raised(genes, graph, picks, vertex, position) || (graph.contains_key(vertex) && raises(
            earlier,
            vertex as int,
            graph[vertex],
            picks[vertex as int],
            position,
        ))
    }
}

/// Each pick below `count` is a neighbour of its vertex, wherever that
/// vertex has a neighbour at all.
pub open spec fn picks_are_neighbors(
    graph: Map<usize, Set<usize>>,
    picks: Seq<usize>,
    count: usize,
) -> bool {
    forall|v: usize, u: usize|
        v < count && graph.contains_key(v) && #[trigger] graph[v].contains(u) ==> graph[v].contains(
            picks[v as int],
        )
}

/// `after` is what some pass over all the vertices of `graph` makes of
/// `before`, with a neighbour picked at each vertex that has one.
pub open spec fn is_repair_of(before: Seq<u8>, graph: Map<usize, Set<usize>>, after: Seq<u8>) -> bool {
    exists|picks: Seq<usize>|
        {
            &&& picks.len() == order(graph)
            &&& picks_are_neighbors(graph, picks, order(graph) as usize)
            &&& after == #[trigger] repair_through(before, graph, picks, order(graph) as usize)
        }
}

/// The visits below `count` read no pick at or beyond `count`.
pub proof fn lemma_repair_ignores_later_picks(
    genes: Seq<u8>,
    graph: Map<usize, Set<usize>>,
    picks: Seq<usize>,
    others: Seq<usize>,
    count: usize,
)
    requires
        forall|v: int| 0 <= v < count ==> picks[v] == others[v],
    ensures
        repair_through(genes, graph, picks, count) == repair_through(genes, graph, others, count),
    decreases count,
{
    if count > 0 {
        lemma_repair_ignores_later_picks(genes, graph, picks, others, (count - 1) as usize);
    }
}

/// Repair leaves a total Roman dominating function as it is, whatever is
/// picked: no vertex carries a label to reset and none misses its support.
pub proof fn lemma_repair_of_valid_is_identity(
    genes: Seq<u8>,
    graph: Map<usize, Set<usize>>,
    picks: Seq<usize>,
    count: usize,
)
    requires
        is_total_roman_dominating(genes, graph),
        count <= order(graph),
    ensures
        repair_through(genes, graph, picks, count) == genes,
    decreases count,
{
    if count > 0 {
        let vertex = (count - 1) as usize;
        lemma_repair_of_valid_is_identity(genes, graph, picks, vertex);
        assert(graph.contains_key(vertex));
        assert(is_dominated(genes, vertex as int, graph[vertex]));
    }
}

/// What repair does to a single position. A label among 0, 1 and 2 is
/// never lowered and stays among them. A label outside them, at a vertex
/// that the pass visits, ends as 0 if and only if no visit raises it as
/// the picked neighbour of another vertex; raised, it ends as 1 or 2.
pub proof fn lemma_repair_is_monotone(
    genes: Seq<u8>,
    graph: Map<usize, Set<usize>>,
    picks: Seq<usize>,
    count: usize,
    position: int,
)
    requires
        labels_cover(genes.len(), graph),
        count <= order(graph),
        0 <= position < genes.len(),
    ensures
        repair_through(genes, graph, picks, count).len() == genes.len(),
        genes[position] <= 2 ==> genes[position] <= repair_through(
            genes,
            graph,
            picks,
            count,
        )[position] <= 2,
        genes[position] > 2 && is_raised(genes, graph, picks, count, position) ==> 1
            <= repair_through(genes, graph, picks, count)[position] <= 2,
        genes[position] > 2 && !is_raised(genes, graph, picks, count, position) ==> repair_through(
            genes,
            graph,
            picks,
            count,
        )[position] == (if position < count && graph.contains_key(position as usize) {
            0u8
        } else {
            genes[position]
        }),
    decreases count,
{
    if count > 0 {
        let vertex = (count - 1) as usize;
        let earlier = repair_through(genes, graph, picks, vertex);
        lemma_repair_is_monotone(genes, graph, picks, vertex, position);
        lemma_repair_is_monotone(genes, graph, picks, vertex, vertex as int);
        if graph.contains_key(vertex) {
            let pick = picks[vertex as int];
            if earlier[vertex as int] <= 2 && missing_support(earlier, vertex as int, graph[vertex])
                is Some && graph[vertex].contains(pick) {
                assert(pick < genes.len());
                lemma_repair_is_monotone(genes, graph, picks, vertex, pick as int);
                if missing_support(earlier, vertex as int, graph[vertex]) == Some(2u8) {
                    assert(earlier[pick as int] != 2);
                } else {
                    assert(earlier[pick as int] == 0);
                }
            }
        }
    }
}

/// Repair as a whole: no label is lowered, except that a label other than
/// 0, 1 and 2 becomes 0. This holds of the passes in which every such label
/// stands at a vertex that is visited and is raised by no visit; where one
/// of them is raised, it ends as 1 or 2, and where its vertex is not
/// visited, it stays.
pub proof fn lemma_repair_raises_or_resets(
    genes: Seq<u8>,
    graph: Map<usize, Set<usize>>,
    picks: Seq<usize>,
    count: usize,
)
    requires
        labels_cover(genes.len(), graph),
        count <= order(graph),
        forall|i: int|
            0 <= i < genes.len() && genes[i] > 2 ==> i < count && graph.contains_key(i as usize)
                && !#[trigger] is_raised(genes, graph, picks, count, i),
    ensures
        repair_through(genes, graph, picks, count).len() == genes.len(),
        forall|i: int|
            0 <= i < genes.len() ==> {
                let after = #[trigger] repair_through(genes, graph, picks, count)[i];
                if genes[i] <= 2 {
                    genes[i] <= after
                } else {
                    after == 0
                }
            },
{
    let repaired = repair_through(genes, graph, picks, count);
    lemma_repair_weight_bound(genes, graph, picks, count);
    assert forall|i: int| 0 <= i < genes.len() implies if genes[i] <= 2 {
        genes[i] <= #[trigger] repaired[i]
    } else {
        repaired[i] == 0
    } by {
        lemma_repair_is_monotone(genes, graph, picks, count, i);
        if genes[i] > 2 {
            assert(!is_raised(genes, graph, picks, count, i));
        }
    }
}

/// After a pass over all the vertices, every vertex that was visited
/// carries one of the labels 0, 1 and 2.
pub proof fn lemma_repair_leaves_no_malformed_vertex(
    genes: Seq<u8>,
    graph: Map<usize, Set<usize>>,
    picks: Seq<usize>,
    count: usize,
    vertex: usize,
)
    requires
        labels_cover(genes.len(), graph),
        count <= order(graph),
        vertex < count,
        graph.contains_key(vertex),
    ensures
        repair_through(genes, graph, picks, count)[vertex as int] <= 2,
{
    lemma_repair_is_monotone(genes, graph, picks, count, vertex as int);
}

/// Each visit adds at most 2 to the weight of the labelling.
pub proof fn lemma_repair_weight_bound(
    genes: Seq<u8>,
    graph: Map<usize, Set<usize>>,
    picks: Seq<usize>,
    count: usize,
)
    requires
        labels_cover(genes.len(), graph),
        count <= order(graph),
    ensures
        repair_through(genes, graph, picks, count).len() == genes.len(),
        gene_sum(repair_through(genes, graph, picks, count)) <= gene_sum(genes) + 2 * count,
    decreases count,
{
    if count > 0 {
        let vertex = (count - 1) as usize;
        let earlier = repair_through(genes, graph, picks, vertex);
        lemma_repair_weight_bound(genes, graph, picks, vertex);
        if graph.contains_key(vertex) {
            let pick = picks[vertex as int];
            if earlier[vertex as int] > 2 {
                lemma_gene_sum_update(earlier, vertex as int, 0u8);
            } else if missing_support(earlier, vertex as int, graph[vertex]) is Some
                && graph[vertex].contains(pick) {
                assert(pick < genes.len());
                lemma_gene_sum_update(
                    earlier,
                    pick as int,
                    missing_support(earlier, vertex as int, graph[vertex])->0,
                );
            }
        }
    }
}

/// Replacing one label changes the weight by the difference of the two.
pub proof fn lemma_gene_sum_update(genes: Seq<u8>, position: int, label: u8)
    requires
        0 <= position < genes.len(),
    ensures
        gene_sum(genes.update(position, label)) == gene_sum(genes) - genes[position] + label,
    decreases genes.len(),
{
    let updated = genes.update(position, label);
    if position == genes.len() - 1 {
        assert(updated.drop_last() =~= genes.drop_last());
    } else {
        lemma_gene_sum_update(genes.drop_last(), position, label);
        assert(updated.drop_last() =~= genes.drop_last().update(position, label));
    }
}

} // verus!
