//! Individuals of the search and the operators that act on them.

pub mod chromosome;
pub mod domination;
pub mod population;
pub mod repair;
pub mod selection;

pub use chromosome::Chromosome;
pub use population::Population;
pub use selection::{KTournamentSelection, SelectionStrategy};
