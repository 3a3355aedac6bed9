//! Candidate encoding, repair and selection for a genetic search over
//! total Roman dominating functions of a graph.
//!
//! A total Roman dominating function labels every vertex of a graph with
//! 0, 1 or 2 such that every vertex labelled 0 has a neighbour labelled 2
//! and every vertex labelled 1 or 2 has a neighbour with a positive label.
//! The weight of a labelling is the sum of its labels.

pub mod genetic;
pub mod graph;
mod random;
