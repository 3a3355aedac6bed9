//! A candidate labelling together with its weight.

use crate::genetic::domination::{
    has_neighbor_labeled_two, has_positive_neighbor, is_dominated, is_total_roman_dominating,
    labels_cover, order,
};
use crate::genetic::repair::{
    is_repair_of, lemma_repair_ignores_later_picks, lemma_repair_is_monotone,
    lemma_repair_leaves_no_malformed_vertex, lemma_repair_of_valid_is_identity,
    lemma_repair_weight_bound, missing_support, picks_are_neighbors, repair_through,
};
use crate::graph::SimpleGraph;
use crate::random::choose_one;
use rand::thread_rng;
use vstd::prelude::*;

verus! {

/// The weight of a labelling: the sum of all its labels.
pub open spec fn gene_sum(genes: Seq<u8>) -> nat
    decreases genes.len(),
{
    if genes.len() == 0 {
        0
    } else {
        gene_sum(genes.drop_last()) + genes.last() as nat
    }
}

/// The weight of a prefix never exceeds the weight of the whole labelling.
pub proof fn lemma_gene_sum_prefix(genes: Seq<u8>, k: int)
    requires
        0 <= k <= genes.len(),
    ensures
        gene_sum(genes.take(k)) <= gene_sum(genes),
    decreases genes.len() - k,
{
    if k < genes.len() {
        lemma_gene_sum_prefix(genes, k + 1);
        assert(genes.take(k + 1).drop_last() =~= genes.take(k));
    } else {
        assert(genes.take(k) =~= genes);
    }
}

/// One candidate solution: a label per vertex, indexed by vertex
/// identifier, and the weight of the labelling.
#[derive(Debug)]
pub struct Chromosome {
    genes: Vec<u8>,
    fitness: usize,
}

impl View for Chromosome {
    type V = Seq<u8>;

    closed spec fn view(&self) -> Seq<u8> {
        self.genes@
    }
}

impl Chromosome {
    #[verifier::type_invariant]
    spec fn fitness_is_weight(&self) -> bool {
        self.fitness == gene_sum(self.genes@)
    }

    /// Builds a chromosome from its labels and computes its weight once.
    /// Labels are not validated: any byte may stand at any position.
    pub fn new(genes: Vec<u8>) -> (chromosome: Chromosome)
        requires
            gene_sum(genes@) <= usize::MAX,
        ensures
            chromosome@ == genes@,
    {
        let mut fitness: usize = 0;
        let mut i: usize = 0;
        while i < genes.len()
            invariant
                i <= genes.len(),
                fitness == gene_sum(genes@.take(i as int)),
                gene_sum(genes@) <= usize::MAX,
            decreases genes.len() - i,
        {
            proof {
                lemma_gene_sum_prefix(genes@, i + 1);
                assert(genes@.take(i + 1).drop_last() =~= genes@.take(i as int));
            }
            fitness = fitness + genes[i] as usize;
            i = i + 1;
        }
        proof {
            assert(genes@.take(genes@.len() as int) =~= genes@);
        }
        Chromosome { genes, fitness }
    }

    /// The weight of the labelling, as computed at construction.
    pub fn fitness(&self) -> (fitness: usize)
        ensures
            fitness == gene_sum(self@),
    {
        proof {
            use_type_invariant(self);
        }
        self.fitness
    }

    /// The labels, one per vertex.
    pub fn genes(&self) -> (genes: &[u8])
        ensures
            genes@ == self@,
    {
        self.genes.as_slice()
    }
}

/// Whether some listed neighbour carries the label 2.
fn any_neighbor_is_two(genes: &Vec<u8>, neighbors: &Vec<usize>) -> (found: bool)
    requires
        forall|j: int| 0 <= j < neighbors@.len() ==> neighbors@[j] < genes@.len(),
    ensures
        found == has_neighbor_labeled_two(genes@, neighbors@.to_set()),
{
    let mut i: usize = 0;
    while i < neighbors.len()
        invariant
            i <= neighbors.len(),
            forall|j: int| 0 <= j < neighbors@.len() ==> neighbors@[j] < genes@.len(),
            forall|j: int| 0 <= j < i ==> genes@[neighbors@[j] as int] != 2,
        decreases neighbors.len() - i,
    {
        if genes[neighbors[i]] == 2 {
            assert(neighbors@.to_set().contains(neighbors@[i as int]));
            return true;
        }
        i = i + 1;
    }
    false
}

/// Whether some listed neighbour carries a label greater than 0.
fn any_neighbor_is_positive(genes: &Vec<u8>, neighbors: &Vec<usize>) -> (found: bool)
    requires
        forall|j: int| 0 <= j < neighbors@.len() ==> neighbors@[j] < genes@.len(),
    ensures
        found == has_positive_neighbor(genes@, neighbors@.to_set()),
{
    let mut i: usize = 0;
    while i < neighbors.len()
        invariant
            i <= neighbors.len(),
            forall|j: int| 0 <= j < neighbors@.len() ==> neighbors@[j] < genes@.len(),
            forall|j: int| 0 <= j < i ==> genes@[neighbors@[j] as int] == 0,
        decreases neighbors.len() - i,
    {
        if genes[neighbors[i]] > 0 {
            assert(neighbors@.to_set().contains(neighbors@[i as int]));
            return true;
        }
        i = i + 1;
    }
    false
}

/// The label that a neighbour of `vertex` has to be raised to, if any.
fn support_missing(genes: &Vec<u8>, vertex: usize, neighbors: &Vec<usize>) -> (label: Option<u8>)
    requires
        vertex < genes@.len(),
        forall|j: int| 0 <= j < neighbors@.len() ==> neighbors@[j] < genes@.len(),
    ensures
        label == missing_support(genes@, vertex as int, neighbors@.to_set()),
{
    let label = genes[vertex];
    if label == 0 {
        if any_neighbor_is_two(genes, neighbors) {
            None
        } else {
            Some(2)
        }
    } else if label <= 2 {
        if any_neighbor_is_positive(genes, neighbors) {
            None
        } else {
            Some(1)
        }
    } else {
        None
    }
}

impl Chromosome {
    /// Whether the labelling has a position for every vertex and every
    /// neighbour that validation and repair on `graph` look at.
    pub fn covers(&self, graph: &SimpleGraph) -> (covered: bool)
        ensures
            covered == labels_cover(self@.len(), graph@),
    {
        let vertex_count = graph.vertex_count();
        if vertex_count > self.genes.len() {
            return false;
        }
        let mut vertex: usize = 0;
        while vertex < vertex_count
            invariant
                vertex <= vertex_count,
                vertex_count == order(graph@),
                vertex_count <= self@.len(),
                forall|v: usize, u: usize|
                    v < vertex && graph@.contains_key(v) && #[trigger] graph@[v].contains(u) ==> u
                        < self@.len(),
            decreases vertex_count - vertex,
        {
            match graph.neighbors(vertex) {
                Ok(neighbors) => {
                    let mut j: usize = 0;
                    while j < neighbors.len()
                        invariant
                            j <= neighbors.len(),
                            vertex < order(graph@),
                            graph@.contains_key(vertex),
                            neighbors@.to_set() == graph@[vertex],
                            forall|i: int| 0 <= i < j ==> neighbors@[i] < self@.len(),
                        decreases neighbors.len() - j,
                    {
                        if neighbors[j] >= self.genes.len() {
                            assert(graph@[vertex].contains(neighbors@[j as int]));
                            return false;
                        }
                        j = j + 1;
                    }
                    assert forall|u: usize| graph@[vertex].contains(u) implies u < self@.len() by {
                        let at = choose|at: int| 0 <= at < neighbors@.len() && neighbors@[at] == u;
                        assert(neighbors@[at] < self@.len());
                    }
                },
                Err(_) => {},
            }
            assert forall|v: usize, u: usize|
                v < vertex + 1 && graph@.contains_key(v) && #[trigger] graph@[v].contains(
                    u,
                ) implies u < self@.len() by {
                assert(v < vertex || v == vertex);
            }
            vertex = vertex + 1;
        }
        true
    }

    /// Whether the labelling is a total Roman dominating function of
    /// `graph`. The vertices are examined in the order of their
    /// identifiers, from 0 up to the number of vertices; an identifier
    /// among them that the graph does not know, and a label other than 0,
    /// 1 or 2 at one of them, make the labelling invalid.
    pub fn is_valid_to_total_roman_domination(&self, graph: &SimpleGraph) -> (valid: bool)
        requires
            labels_cover(self@.len(), graph@),
        ensures
            valid == is_total_roman_dominating(self@, graph@),
    {
        let vertex_count = graph.vertex_count();
        let mut vertex: usize = 0;
        while vertex < vertex_count
            invariant
                vertex <= vertex_count,
                vertex_count == order(graph@),
                labels_cover(self@.len(), graph@),
                forall|v: usize|
                    #![trigger graph@.contains_key(v)]
                    v < vertex ==> graph@.contains_key(v) && is_dominated(
                        self@,
                        v as int,
                        graph@[v],
                    ),
            decreases vertex_count - vertex,
        {
            match graph.neighbors(vertex) {
                Ok(neighbors) => {
                    assert forall|j: int| 0 <= j < neighbors@.len() implies neighbors@[j]
                        < self.genes@.len() by {
                        assert(graph@[vertex].contains(neighbors@[j]));
                    }
                    let label = self.genes[vertex];
                    let dominated = if label == 0 {
                        any_neighbor_is_two(&self.genes, neighbors)
                    } else if label <= 2 {
                        any_neighbor_is_positive(&self.genes, neighbors)
                    } else {
                        false
                    };
                    if !dominated {
                        return false;
                    }
                },
                Err(_) => {
                    return false;
                },
            }
            assert forall|v: usize| v < vertex + 1 implies #[trigger] graph@.contains_key(v)
                && is_dominated(self@, v as int, graph@[v]) by {
                assert(v < vertex || v == vertex);
            }
            vertex = vertex + 1;
        }
        true
    }

    /// Repairs the labelling in one pass over the vertices, in the order of
    /// their identifiers. A label other than 0, 1 and 2 is reset to 0. A
    /// vertex that misses its support has one of its neighbours, picked at
    /// random, raised to the missing label; without neighbours it stays as
    /// it is, and so does an identifier that the graph does not know. Each
    /// visit sees what the earlier ones changed, and no vertex is visited
    /// twice. The chromosome itself is left as it is.
    ///
    /// Whatever is picked, the outcome is that of the pass with some picks
    /// among the neighbours, a total Roman dominating function comes back
    /// unchanged, a label among 0, 1 and 2 is never lowered, and every
    /// vertex that was visited ends with one of these three labels.
    pub fn fix_chromosome(&self, graph: &SimpleGraph) -> (repaired: Chromosome)
        requires
            labels_cover(self@.len(), graph@),
            gene_sum(self@) + 2 * order(graph@) <= usize::MAX,
        ensures
            is_repair_of(self@, graph@, repaired@),
            is_total_roman_dominating(self@, graph@) ==> repaired@ == self@,
            repaired@.len() == self@.len(),
            forall|i: int|
                0 <= i < self@.len() && self@[i] <= 2 ==> self@[i] <= #[trigger] repaired@[i] <= 2,
            forall|v: usize|
                v < order(graph@) && #[trigger] graph@.contains_key(v) ==> repaired@[v as int] <= 2,
    {
        let mut rng = thread_rng();
        let vertex_count = graph.vertex_count();
        let mut new_genes = self.genes.clone();
        let ghost mut picks: Seq<usize> = Seq::new(vertex_count as nat, |v: int| 0usize);
        let mut vertex: usize = 0;
        while vertex < vertex_count
            invariant
                vertex <= vertex_count,
                vertex_count == order(graph@),
                picks.len() == vertex_count,
                picks_are_neighbors(graph@, picks, vertex),
                labels_cover(self@.len(), graph@),
                new_genes@ == repair_through(self@, graph@, picks, vertex),
            decreases vertex_count - vertex,
        {
            let ghost earlier = picks;
            proof {
                lemma_repair_weight_bound(self@, graph@, picks, vertex);
            }
            match graph.neighbors(vertex) {
                Ok(neighbors) => {
                    assert forall|j: int| 0 <= j < neighbors@.len() implies neighbors@[j]
                        < new_genes@.len() by {
                        assert(graph@[vertex].contains(neighbors@[j]));
                    }
                    proof {
                        if neighbors@.len() > 0 {
                            assert(graph@[vertex].contains(neighbors@[0]));
                            picks = picks.update(vertex as int, neighbors@[0]);
                        }
                    }
                    if new_genes[vertex] > 2 {
                        new_genes[vertex] = 0;
                    } else {
                        match support_missing(&new_genes, vertex, neighbors) {
                            Some(label) => {
                                match choose_one(neighbors, &mut rng) {
                                    Some(neighbor) => {
                                        assert(graph@[vertex].contains(neighbor));
                                        proof {
                                            picks = picks.update(vertex as int, neighbor);
                                        }
                                        new_genes[neighbor] = label;
                                    },
                                    None => {},
                                }
                            },
                            None => {},
                        }
                    }
                },
                Err(_) => {},
            }
            proof {
                lemma_repair_ignores_later_picks(self@, graph@, earlier, picks, vertex);
            }
            vertex = vertex + 1;
        }
        proof {
            lemma_repair_weight_bound(self@, graph@, picks, vertex_count);
            assert(new_genes@ == repair_through(self@, graph@, picks, order(graph@) as usize));
            assert(is_repair_of(self@, graph@, new_genes@));
            if is_total_roman_dominating(self@, graph@) {
                lemma_repair_of_valid_is_identity(self@, graph@, picks, vertex_count);
            }
            assert forall|i: int| 0 <= i < self@.len() && self@[i] <= 2 implies self@[i]
                <= #[trigger] new_genes@[i] <= 2 by {
                lemma_repair_is_monotone(self@, graph@, picks, vertex_count, i);
            }
            assert forall|v: usize|
                v < order(graph@) && #[trigger] graph@.contains_key(v) implies new_genes@[v as int]
                <= 2 by {
                lemma_repair_leaves_no_malformed_vertex(self@, graph@, picks, vertex_count, v);
            }
        }
        Chromosome::new(new_genes)
    }

    /// The same pass with the neighbour to raise given for each vertex by
    /// `picks`, in place of a random draw: `picks[v]` is raised where the
    /// vertex `v` misses its support. A pick is read only at a vertex that
    /// has neighbours, and has to be one of them.
    pub fn fix_chromosome_with(&self, graph: &SimpleGraph, picks: &Vec<usize>) -> (repaired:
        Chromosome)
        requires
            labels_cover(self@.len(), graph@),
            gene_sum(self@) + 2 * order(graph@) <= usize::MAX,
            picks@.len() == order(graph@),
            picks_are_neighbors(graph@, picks@, order(graph@) as usize),
        ensures
            repaired@ == repair_through(self@, graph@, picks@, order(graph@) as usize),
    {
        let vertex_count = graph.vertex_count();
        let mut new_genes = self.genes.clone();
        let mut vertex: usize = 0;
        while vertex < vertex_count
            invariant
                vertex <= vertex_count,
                vertex_count == order(graph@),
                picks@.len() == vertex_count,
                picks_are_neighbors(graph@, picks@, vertex_count),
                labels_cover(self@.len(), graph@),
                new_genes@ == repair_through(self@, graph@, picks@, vertex),
            decreases vertex_count - vertex,
        {
            proof {
                lemma_repair_weight_bound(self@, graph@, picks@, vertex);
            }
            match graph.neighbors(vertex) {
                Ok(neighbors) => {
                    assert forall|j: int| 0 <= j < neighbors@.len() implies neighbors@[j]
                        < new_genes@.len() by {
                        assert(graph@[vertex].contains(neighbors@[j]));
                    }
                    if new_genes[vertex] > 2 {
                        new_genes[vertex] = 0;
                    } else {
                        match support_missing(&new_genes, vertex, neighbors) {
                            Some(label) => {
                                if neighbors.len() > 0 {
                                    assert(graph@[vertex].contains(neighbors@[0]));
                                    new_genes[picks[vertex]] = label;
                                }
                            },
                            None => {},
                        }
                    }
                },
                Err(_) => {},
            }
            vertex = vertex + 1;
        }
        proof {
            lemma_repair_weight_bound(self@, graph@, picks@, vertex_count);
        }
        Chromosome::new(new_genes)
    }
}

impl Clone for Chromosome {
    fn clone(&self) -> (copy: Chromosome)
        ensures
            copy@ == self@,
    {
        proof {
            use_type_invariant(self);
        }
        Chromosome { genes: self.genes.clone(), fitness: self.fitness }
    }
}

} // verus!
