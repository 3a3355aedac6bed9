//! Simple undirected graphs over integer vertex identifiers.

use std::collections::HashMap;
use vstd::prelude::*;

verus! {

/// Why an operation on a [`SimpleGraph`] was refused.
#[derive(Debug, Clone, Copy, PartialEq, Eq, Structural)]
pub enum GraphError {
    /// The vertex to add is already part of the graph.
    VertexAlreadyExists,
    /// A vertex named by the operation is not part of the graph.
    VertexNotFound,
    /// Both ends of the edge are the same vertex.
    SelfLoop,
    /// The two vertices are already adjacent.
    EdgeAlreadyExists,
}

/// A graph as a map from each vertex to the set of its neighbours is simple
/// and undirected when no vertex neighbours itself, every neighbour is a
/// vertex, and adjacency goes both ways.
pub open spec fn is_simple_undirected(graph: Map<usize, Set<usize>>) -> bool {
    forall|v: usize, u: usize|
        graph.contains_key(v) && #[trigger] graph[v].contains(u) ==> u != v && graph.contains_key(u)
            && graph[u].contains(v)
}

/// Why `add_edge(a, b)` is refused on `graph`, or `None` where it is not.
pub open spec fn edge_refusal(graph: Map<usize, Set<usize>>, a: usize, b: usize) -> Option<
    GraphError,
> {
    if !graph.contains_key(a) || !graph.contains_key(b) {
        Some(GraphError::VertexNotFound)
    } else if a == b {
        Some(GraphError::SelfLoop)
    } else if graph[a].contains(b) {
        Some(GraphError::EdgeAlreadyExists)
    } else {
        None
    }
}

/// The graph that results from joining the distinct vertices `a` and `b`.
pub open spec fn with_edge(graph: Map<usize, Set<usize>>, a: usize, b: usize) -> Map<
    usize,
    Set<usize>,
> {
    graph.insert(a, graph[a].insert(b)).insert(b, graph[b].insert(a))
}

spec fn neighbor_sets(adjacency: Map<usize, Vec<usize>>) -> Map<usize, Set<usize>> {
    Map::new(|v: usize| adjacency.contains_key(v), |v: usize| adjacency[v]@.to_set())
}

spec fn lists_are_sets(adjacency: Map<usize, Vec<usize>>) -> bool {
    forall|v: usize| adjacency.contains_key(v) ==> (#[trigger] adjacency[v])@.no_duplicates()
}

/// A simple undirected graph. Each vertex keeps the list of its
/// neighbours, in which no vertex occurs twice.
#[derive(Debug)]
pub struct SimpleGraph {
    adjacency: HashMap<usize, Vec<usize>>,
}

impl View for SimpleGraph {
    type V = Map<usize, Set<usize>>;

    closed spec fn view(&self) -> Map<usize, Set<usize>> {
        neighbor_sets(self.adjacency@)
    }
}

fn list_contains(list: &Vec<usize>, wanted: usize) -> (found: bool)
    ensures
        found == list@.contains(wanted),
{
    let mut i: usize = 0;
    while i < list.len()
        invariant
            i <= list.len(),
            forall|j: int| 0 <= j < i ==> list@[j] != wanted,
        decreases list.len() - i,
    {
        if list[i] == wanted {
            return true;
        }
        i = i + 1;
    }
    false
}

proof fn lemma_push_fresh(list: Seq<usize>, fresh: usize)
    requires
        list.no_duplicates(),
        !list.contains(fresh),
    ensures
        list.push(fresh).no_duplicates(),
{
    let longer = list.push(fresh);
    assert forall|i: int, j: int|
        0 <= i < longer.len() && 0 <= j < longer.len() && i != j implies longer[i] != longer[j] by {
        if i < list.len() {
            assert(list.contains(list[i]));
        }
        if j < list.len() {
            assert(list.contains(list[j]));
        }
    }
}

/// Appends `to` to the neighbour list of `from`.
fn append_neighbor(adjacency: &mut HashMap<usize, Vec<usize>>, from: usize, to: usize)
    requires
        old(adjacency)@.contains_key(from),
    ensures
        final(adjacency)@.dom() == old(adjacency)@.dom(),
        final(adjacency)@[from]@ == old(adjacency)@[from]@.push(to),
        forall|v: usize|
            v != from && old(adjacency)@.contains_key(v) ==> #[trigger] final(adjacency)@[v] == old(
                adjacency,
            )@[v],
{
    match adjacency.remove(&from) {
        Some(mut list) => {
            list.push(to);
            adjacency.insert(from, list);
            assert(final(adjacency)@.dom() =~= old(adjacency)@.dom());
        },
        None => {},
    }
}

/// Records the edge between the distinct vertices `a` and `b` at both ends.
fn link(adjacency: &mut HashMap<usize, Vec<usize>>, a: usize, b: usize)
    requires
        edge_refusal(neighbor_sets(old(adjacency)@), a, b) is None,
        lists_are_sets(old(adjacency)@),
        is_simple_undirected(neighbor_sets(old(adjacency)@)),
    ensures
        neighbor_sets(final(adjacency)@) == with_edge(neighbor_sets(old(adjacency)@), a, b),
        lists_are_sets(final(adjacency)@),
        is_simple_undirected(neighbor_sets(final(adjacency)@)),
{
    append_neighbor(adjacency, a, b);
    let ghost halfway = adjacency@;
    append_neighbor(adjacency, b, a);
    proof {
        let before = old(adjacency)@;
        let after = adjacency@;
        assert(after[a]@ == before[a]@.push(b));
        assert(after[b]@ == before[b]@.push(a));
        before[a]@.lemma_push_to_set_commute(b);
        before[b]@.lemma_push_to_set_commute(a);
        assert(neighbor_sets(after) =~= with_edge(neighbor_sets(before), a, b));
        assert forall|v: usize| after.contains_key(v) implies (#[trigger] after[v])@.no_duplicates() by {
            if v != a && v != b {
                assert(after[v] == halfway[v]);
                assert(halfway[v] == before[v]);
            } else if v == a {
                assert(!neighbor_sets(before)[a].contains(b));
                lemma_push_fresh(before[a]@, b);
            } else {
                assert(!neighbor_sets(before)[b].contains(a));
                lemma_push_fresh(before[b]@, a);
            }
        }
    }
}

impl SimpleGraph {
    #[verifier::type_invariant]
    spec fn well_formed(&self) -> bool {
        &&& lists_are_sets(self.adjacency@)
        &&& is_simple_undirected(self@)
    }

    /// The graph without vertices.
    pub fn new() -> (graph: SimpleGraph)
        ensures
            graph@ == Map::<usize, Set<usize>>::empty(),
    {
        let graph = SimpleGraph { adjacency: HashMap::new() };
        assert(graph@ =~= Map::<usize, Set<usize>>::empty());
        graph
    }

    /// The number of vertices.
    pub fn vertex_count(&self) -> (count: usize)
        ensures
            self@.dom().finite(),
            count == self@.dom().len(),
    {
        assert(self@.dom() =~= self.adjacency@.dom());
        self.adjacency.len()
    }

    /// Whether `vertex` is part of the graph.
    pub fn has_vertex(&self, vertex: usize) -> (present: bool)
        ensures
            present == self@.contains_key(vertex),
    {
        self.adjacency.contains_key(&vertex)
    }

    /// The neighbours of `vertex`, each listed once, or
    /// [`GraphError::VertexNotFound`] where the graph has no such vertex.
    /// Every neighbour is another vertex of the graph that has `vertex`
    /// among its own neighbours.
    pub fn neighbors(&self, vertex: usize) -> (found: Result<&Vec<usize>, GraphError>)
        ensures
            match found {
                Ok(list) => {
                    &&& self@.contains_key(vertex)
                    &&& list@.to_set() == self@[vertex]
                    &&& list@.no_duplicates()
                },
                Err(error) => !self@.contains_key(vertex) && error == GraphError::VertexNotFound,
            },
            is_simple_undirected(self@),
    {
        proof {
            use_type_invariant(self);
        }
        match self.adjacency.get(&vertex) {
            Some(list) => Ok(list),
            None => Err(GraphError::VertexNotFound),
        }
    }

    /// Adds the vertex `id`, without neighbours. A vertex that is already
    /// part of the graph is refused and the graph stays as it was.
    pub fn add_vertex(&mut self, id: usize) -> (added: Result<(), GraphError>)
        ensures
            match added {
                Ok(_) => !old(self)@.contains_key(id) && final(self)@ == old(self)@.insert(
                    id,
                    Set::empty(),
                ),
                Err(error) => {
                    &&& old(self)@.contains_key(id)
                    &&& error == GraphError::VertexAlreadyExists
                    &&& final(self)@ == old(self)@
                },
            },
    {
        proof {
            use_type_invariant(&*self);
        }
        if self.adjacency.contains_key(&id) {
            return Err(GraphError::VertexAlreadyExists);
        }
        let mut adjacency: HashMap<usize, Vec<usize>> = HashMap::new();
        std::mem::swap(&mut self.adjacency, &mut adjacency);
        adjacency.insert(id, Vec::new());
        proof {
            assert(neighbor_sets(adjacency@) =~= old(self)@.insert(id, Set::empty())) by {
                assert(adjacency@[id]@.to_set() =~= Set::<usize>::empty());
            }
            assert(lists_are_sets(adjacency@));
            assert(is_simple_undirected(neighbor_sets(adjacency@)));
        }
        std::mem::swap(&mut self.adjacency, &mut adjacency);
        Ok(())
    }

    /// Joins `a` and `b` by an edge. The edge is refused, and the graph
    /// stays as it was, where an end is not a vertex of the graph, where
    /// both ends are the same vertex, or where the two are already adjacent.
    pub fn add_edge(&mut self, a: usize, b: usize) -> (added: Result<(), GraphError>)
        ensures
            match added {
                Ok(_) => edge_refusal(old(self)@, a, b) is None && final(self)@ == with_edge(
                    old(self)@,
                    a,
                    b,
                ),
                Err(error) => edge_refusal(old(self)@, a, b) == Some(error) && final(self)@ == old(
                    self,
                )@,
            },
    {
        proof {
            use_type_invariant(&*self);
        }
        if a == b {
            if self.adjacency.contains_key(&a) {
                return Err(GraphError::SelfLoop);
            }
            return Err(GraphError::VertexNotFound);
        }
        if !self.adjacency.contains_key(&b) {
            return Err(GraphError::VertexNotFound);
        }
        match self.adjacency.get(&a) {
            Some(list) => {
                if list_contains(list, b) {
                    return Err(GraphError::EdgeAlreadyExists);
                }
            },
            None => {
                return Err(GraphError::VertexNotFound);
            },
        }
        let mut adjacency: HashMap<usize, Vec<usize>> = HashMap::new();
        std::mem::swap(&mut self.adjacency, &mut adjacency);
        link(&mut adjacency, a, b);
        std::mem::swap(&mut self.adjacency, &mut adjacency);
        Ok(())
    }
}

} // verus!
