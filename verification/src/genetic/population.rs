//! One generation of the search.

use crate::genetic::chromosome::Chromosome;
use vstd::prelude::*;

verus! {

/// The labellings of a sequence of chromosomes, in the same order.
pub open spec fn labellings(individuals: Seq<Chromosome>) -> Seq<Seq<u8>> {
    Seq::new(individuals.len(), |i: int| individuals[i]@)
}

/// An ordered collection of chromosomes.
#[derive(Debug)]
pub struct Population {
    individuals: Vec<Chromosome>,
}

impl View for Population {
    type V = Seq<Seq<u8>>;

    closed spec fn view(&self) -> Seq<Seq<u8>> {
        labellings(self.individuals@)
    }
}

impl Population {
    /// The population of the given individuals, in the given order.
    pub fn new_from_individuals(individuals: Vec<Chromosome>) -> (population: Population)
        ensures
            population@ == labellings(individuals@),
    {
        Population { individuals }
    }

    /// The number of individuals.
    pub fn size(&self) -> (size: usize)
        ensures
            size == self@.len(),
    {
        self.individuals.len()
    }

    /// The individuals, in their order.
    pub fn individuals(&self) -> (individuals: &[Chromosome])
        ensures
            labellings(individuals@) == self@,
    {
        self.individuals.as_slice()
    }
}

impl Clone for Population {
    fn clone(&self) -> (copy: Population)
        ensures
            copy@ == self@,
    {
        let mut individuals: Vec<Chromosome> = Vec::with_capacity(self.individuals.len());
        let mut i: usize = 0;
        while i < self.individuals.len()
            invariant
                i <= self.individuals@.len(),
                individuals@.len() == i,
                forall|j: int| 0 <= j < i ==> individuals@[j]@ == self.individuals@[j]@,
            decreases self.individuals@.len() - i,
        {
            individuals.push(self.individuals[i].clone());
            i = i + 1;
        }
        assert(labellings(individuals@) =~= labellings(self.individuals@));
        Population { individuals }
    }
}

} // verus!
