use trd_genetic::genetic::Chromosome;
use trd_genetic::graph::SimpleGraph;

fn cycle_of_five() -> SimpleGraph {
    let mut graph = SimpleGraph::new();
    for i in 0..5 {
        graph.add_vertex(i).unwrap();
    }
    graph.add_edge(0, 1).unwrap();
    graph.add_edge(1, 2).unwrap();
    graph.add_edge(2, 3).unwrap();
    graph.add_edge(3, 4).unwrap();
    graph.add_edge(4, 0).unwrap();
    graph
}

#[test]
fn test_chromosome_creation() {
    let genes = vec![1, 0, 1, 1];
    let chromosome = Chromosome::new(genes.clone());
    assert_eq!(chromosome.genes(), genes);
    assert_eq!(chromosome.fitness(), 3); // 1 + 0 + 1 + 1 = 3
}

#[test]
fn test_chromosome_fitness() {
    let genes = vec![1, 0, 1, 1];
    let chromosome = Chromosome::new(genes);
    assert_eq!(chromosome.fitness(), 3); // 1 + 0 + 1 + 1 = 3
}

#[test]
fn test_chromosome_fitness_cached() {
    let genes = vec![1, 1, 1, 1];
    let chromosome = Chromosome::new(genes);
    let fitness_first = chromosome.fitness();
    let fitness_cached = chromosome.fitness();
    assert_eq!(fitness_first, fitness_cached);
}

#[test]
fn test_valid_solution() {
    let mut graph = SimpleGraph::new();

    for i in 0..5 {
        graph.add_vertex(i).unwrap();
    }
    graph.add_edge(0, 1).unwrap();
    graph.add_edge(1, 2).unwrap();
    graph.add_edge(2, 3).unwrap();
    graph.add_edge(3, 4).unwrap();
    graph.add_edge(4, 0).unwrap();

    let valid_chromosome = Chromosome::new(vec![2, 0, 0, 2, 1]);
    assert!(
        valid_chromosome.is_valid_to_total_roman_domination(&graph),
        "The chromosome should be valid"
    );
}

#[test]
fn test_invalid_solution_vertex_3() {
    let mut graph = SimpleGraph::new();

    for i in 0..5 {
        graph.add_vertex(i).unwrap();
    }
    graph.add_edge(0, 1).unwrap();
    graph.add_edge(1, 2).unwrap();
    graph.add_edge(2, 3).unwrap();
    graph.add_edge(3, 4).unwrap();
    graph.add_edge(4, 0).unwrap();

    let invalid_chromosome = Chromosome::new(vec![2, 0, 0, 2, 0]);

    assert!(
        !invalid_chromosome.is_valid_to_total_roman_domination(&graph),
        "The chromosome should be invalid because vertex 3 lacks a neighbor with f(u) > 0"
    );
}

#[test]
fn test_invalid_solution_invalid_gene() {
    let mut graph = SimpleGraph::new();

    for i in 0..5 {
        graph.add_vertex(i).unwrap();
    }
    graph.add_edge(0, 1).unwrap();
    graph.add_edge(1, 2).unwrap();
    graph.add_edge(2, 3).unwrap();
    graph.add_edge(3, 4).unwrap();
    graph.add_edge(4, 0).unwrap();

    let invalid_chromosome = Chromosome::new(vec![2, 1, 3, 0, 1]);

    assert!(
        !invalid_chromosome.is_valid_to_total_roman_domination(&graph),
        "The chromosome should be invalid due to an invalid gene value"
    );
}

#[test]
fn test_empty_graph() {
    let graph = SimpleGraph::new();

    let empty_chromosome = Chromosome::new(vec![]);

    assert!(
        empty_chromosome.is_valid_to_total_roman_domination(&graph),
        "An empty chromosome should be valid for an empty graph"
    );
}

#[test]
fn test_single_vertex_graph_valid() {
    let mut graph = SimpleGraph::new();

    graph.add_vertex(0).unwrap();

    let valid_chromosome = Chromosome::new(vec![2]);

    assert!(
        !valid_chromosome.is_valid_to_total_roman_domination(&graph),
        "The chromosome should be invalid for a single vertex with f(v) = 2"
    );
}

#[test]
fn test_single_vertex_graph_invalid() {
    let mut graph = SimpleGraph::new();

    graph.add_vertex(0).unwrap();

    let invalid_chromosome = Chromosome::new(vec![0]);

    assert!(
        !invalid_chromosome.is_valid_to_total_roman_domination(&graph),
        "The chromosome should be invalid for a single vertex with f(v) = 0"
    );
}

#[test]
fn fitness_is_the_sum_of_all_labels() {
    assert_eq!(Chromosome::new(vec![]).fitness(), 0);
    assert_eq!(Chromosome::new(vec![2, 0, 0, 2, 1]).fitness(), 5);
    assert_eq!(Chromosome::new(vec![2, 2, 2, 2]).fitness(), 8);
}

#[test]
fn fitness_widens_each_label_before_summing() {
    let chromosome = Chromosome::new(vec![255, 255, 3]);
    assert_eq!(chromosome.fitness(), 513);
    assert_eq!(chromosome.genes(), [255u8, 255, 3]);
}

#[test]
fn fitness_survives_reads_and_copies() {
    let chromosome = Chromosome::new(vec![1, 2, 0, 2]);
    let _ = chromosome.genes();
    let copy = chromosome.clone();
    assert_eq!(chromosome.fitness(), 5);
    assert_eq!(copy.fitness(), 5);
    assert_eq!(copy.genes(), chromosome.genes());
}

#[test]
fn single_vertex_is_invalid_under_every_label() {
    let mut graph = SimpleGraph::new();
    graph.add_vertex(0).unwrap();
    for label in 0..=3u8 {
        let chromosome = Chromosome::new(vec![label]);
        assert!(!chromosome.is_valid_to_total_roman_domination(&graph));
    }
}

#[test]
fn every_labelling_is_valid_on_the_empty_graph() {
    let graph = SimpleGraph::new();
    assert!(Chromosome::new(vec![0, 7]).is_valid_to_total_roman_domination(&graph));
}

#[test]
fn zero_needs_a_two_and_not_just_a_positive_neighbor() {
    let mut graph = SimpleGraph::new();
    graph.add_vertex(0).unwrap();
    graph.add_vertex(1).unwrap();
    graph.add_edge(0, 1).unwrap();
    assert!(!Chromosome::new(vec![0, 1]).is_valid_to_total_roman_domination(&graph));
    assert!(!Chromosome::new(vec![0, 2]).is_valid_to_total_roman_domination(&graph));
    assert!(Chromosome::new(vec![1, 1]).is_valid_to_total_roman_domination(&graph));
    assert!(Chromosome::new(vec![1, 2]).is_valid_to_total_roman_domination(&graph));
    assert!(Chromosome::new(vec![2, 2]).is_valid_to_total_roman_domination(&graph));
    assert!(!Chromosome::new(vec![0, 0]).is_valid_to_total_roman_domination(&graph));
}

#[test]
fn malformed_neighbor_counts_as_positive_but_invalidates() {
    let mut graph = SimpleGraph::new();
    graph.add_vertex(0).unwrap();
    graph.add_vertex(1).unwrap();
    graph.add_edge(0, 1).unwrap();
    assert!(!Chromosome::new(vec![1, 3]).is_valid_to_total_roman_domination(&graph));
    assert!(!Chromosome::new(vec![3, 1]).is_valid_to_total_roman_domination(&graph));
}

#[test]
fn unknown_vertex_makes_the_labelling_invalid() {
    let mut graph = SimpleGraph::new();
    graph.add_vertex(0).unwrap();
    graph.add_vertex(2).unwrap();
    graph.add_edge(0, 2).unwrap();
    let chromosome = Chromosome::new(vec![1, 1, 1]);
    assert!(chromosome.covers(&graph));
    assert!(!chromosome.is_valid_to_total_roman_domination(&graph));
}

#[test]
fn covers_tells_whether_every_position_exists() {
    let graph = cycle_of_five();
    assert!(Chromosome::new(vec![0, 0, 0, 0, 0]).covers(&graph));
    assert!(Chromosome::new(vec![0, 0, 0, 0, 0, 0]).covers(&graph));
    assert!(!Chromosome::new(vec![0, 0, 0, 0]).covers(&graph));
    assert!(Chromosome::new(vec![]).covers(&SimpleGraph::new()));

    let mut sparse = SimpleGraph::new();
    sparse.add_vertex(0).unwrap();
    sparse.add_vertex(1).unwrap();
    sparse.add_vertex(7).unwrap();
    sparse.add_edge(1, 7).unwrap();
    assert!(!Chromosome::new(vec![1, 1, 1]).covers(&sparse));
    assert!(Chromosome::new(vec![1, 1, 1, 0, 0, 0, 0, 1]).covers(&sparse));
}
