use trd_genetic::graph::{GraphError, SimpleGraph};

#[test]
fn new_graph_has_no_vertices() {
    let graph = SimpleGraph::new();
    assert_eq!(graph.vertex_count(), 0);
    assert!(!graph.has_vertex(0));
    assert_eq!(graph.neighbors(0).unwrap_err(), GraphError::VertexNotFound);
}

#[test]
fn vertices_are_counted_once() {
    let mut graph = SimpleGraph::new();
    assert_eq!(graph.add_vertex(3), Ok(()));
    assert_eq!(graph.add_vertex(0), Ok(()));
    assert_eq!(graph.add_vertex(3), Err(GraphError::VertexAlreadyExists));
    assert_eq!(graph.vertex_count(), 2);
    assert!(graph.has_vertex(3));
    assert!(graph.has_vertex(0));
    assert!(!graph.has_vertex(1));
    assert!(graph.neighbors(3).unwrap().is_empty());
}

#[test]
fn edges_are_seen_from_both_ends() {
    let mut graph = SimpleGraph::new();
    for i in 0..3 {
        graph.add_vertex(i).unwrap();
    }
    assert_eq!(graph.add_edge(0, 1), Ok(()));
    assert_eq!(graph.add_edge(2, 0), Ok(()));
    let mut of_zero = graph.neighbors(0).unwrap().clone();
    of_zero.sort();
    assert_eq!(of_zero, vec![1, 2]);
    assert_eq!(graph.neighbors(1).unwrap(), &vec![0]);
    assert_eq!(graph.neighbors(2).unwrap(), &vec![0]);
    assert_eq!(graph.vertex_count(), 3);
}

#[test]
fn refused_edges_leave_the_graph_unchanged() {
    let mut graph = SimpleGraph::new();
    graph.add_vertex(0).unwrap();
    graph.add_vertex(1).unwrap();
    graph.add_edge(0, 1).unwrap();

    assert_eq!(graph.add_edge(0, 1), Err(GraphError::EdgeAlreadyExists));
    assert_eq!(graph.add_edge(1, 0), Err(GraphError::EdgeAlreadyExists));
    assert_eq!(graph.add_edge(1, 1), Err(GraphError::SelfLoop));
    assert_eq!(graph.add_edge(0, 5), Err(GraphError::VertexNotFound));
    assert_eq!(graph.add_edge(5, 0), Err(GraphError::VertexNotFound));
    assert_eq!(graph.add_edge(5, 5), Err(GraphError::VertexNotFound));

    assert_eq!(graph.vertex_count(), 2);
    assert_eq!(graph.neighbors(0).unwrap(), &vec![1]);
    assert_eq!(graph.neighbors(1).unwrap(), &vec![0]);
}

#[test]
fn neighbors_of_an_unknown_vertex_are_an_error() {
    let mut graph = SimpleGraph::new();
    graph.add_vertex(1).unwrap();
    assert_eq!(graph.neighbors(0), Err(GraphError::VertexNotFound));
    assert_eq!(graph.neighbors(1), Ok(&vec![]));
}
