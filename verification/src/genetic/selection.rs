//! Selection of the next generation by tournaments.

use crate::genetic::chromosome::{gene_sum, Chromosome};
use crate::genetic::population::{labellings, Population};
use crate::random::choose_positions;
use rand::thread_rng;
use vstd::prelude::*;

verus! {

/// `drawn` names `tournament_size` different individuals of a population of
/// `size` individuals, by their positions.
pub open spec fn is_tournament(drawn: Seq<usize>, size: nat, tournament_size: nat) -> bool {
    &&& drawn.len() == tournament_size
    &&& drawn.no_duplicates()
    &&& forall|j: int| 0 <= j < drawn.len() ==> drawn[j] < size
}

/// The individual drawn at `position` wins the tournament: none of the
/// drawn individuals is fitter, and those drawn after it are less fit, so
/// that among equally fit individuals the one drawn last wins.
pub open spec fn is_winning_position(
    population: Seq<Seq<u8>>,
    drawn: Seq<usize>,
    position: int,
) -> bool {
    &&& 0 <= position < drawn.len()
    &&& forall|j: int|
        0 <= j < position ==> gene_sum(population[#[trigger] drawn[j] as int]) <= gene_sum(
            population[drawn[position] as int],
        )
    &&& forall|j: int|
        position < j < drawn.len() ==> gene_sum(population[#[trigger] drawn[j] as int]) < gene_sum(
            population[drawn[position] as int],
        )
}

/// `individual` is the labelling of the winner of some tournament among
/// `tournament_size` individuals of the population.
pub open spec fn wins_a_tournament(
    population: Seq<Seq<u8>>,
    tournament_size: nat,
    individual: Seq<u8>,
) -> bool {
    exists|drawn: Seq<usize>, position: int|
        {
            &&& is_tournament(drawn, population.len(), tournament_size)
            &&& #[trigger] is_winning_position(population, drawn, position)
            &&& population[drawn[position] as int] == individual
        }
}

/// The position in `drawn` of the winner of the tournament among the drawn
/// individuals: the fittest of them, and the last such in the order drawn.
pub fn winning_position(individuals: &[Chromosome], drawn: &[usize]) -> (position: usize)
    requires
        drawn@.len() > 0,
        forall|j: int| 0 <= j < drawn@.len() ==> drawn@[j] < individuals@.len(),
    ensures
        is_winning_position(labellings(individuals@), drawn@, position as int),
{
    let mut best: usize = 0;
    let mut best_fitness: usize = individuals[drawn[0]].fitness();
    let mut j: usize = 1;
    while j < drawn.len()
        invariant
            1 <= j <= drawn@.len(),
            best < j,
            forall|i: int| 0 <= i < drawn@.len() ==> drawn@[i] < individuals@.len(),
            best_fitness == gene_sum(labellings(individuals@)[drawn@[best as int] as int]),
            forall|i: int|
                0 <= i < best ==> gene_sum(labellings(individuals@)[#[trigger] drawn@[i] as int])
                    <= best_fitness,
            forall|i: int|
                best < i < j ==> gene_sum(labellings(individuals@)[#[trigger] drawn@[i] as int])
                    < best_fitness,
        decreases drawn@.len() - j,
    {
        let fitness = individuals[drawn[j]].fitness();
        if fitness >= best_fitness {
            best = j;
            best_fitness = fitness;
        }
        j = j + 1;
    }
    best
}

/// A tournament has one winner: the rule for equally fit individuals
/// leaves no choice.
pub proof fn lemma_winning_position_is_unique(
    population: Seq<Seq<u8>>,
    drawn: Seq<usize>,
    first: int,
    second: int,
)
    requires
        is_winning_position(population, drawn, first),
        is_winning_position(population, drawn, second),
    ensures
        first == second,
{
    if first < second {
        assert(gene_sum(population[drawn[second] as int]) < gene_sum(
            population[drawn[first] as int],
        ));
        assert(gene_sum(population[drawn[first] as int]) <= gene_sum(
            population[drawn[second] as int],
        ));
    } else if second < first {
        assert(gene_sum(population[drawn[first] as int]) < gene_sum(
            population[drawn[second] as int],
        ));
        assert(gene_sum(population[drawn[second] as int]) <= gene_sum(
            population[drawn[first] as int],
        ));
    }
}

/// An individual that is fitter than every other individual of the
/// population wins each tournament that it takes part in.
pub proof fn lemma_fittest_wins_where_drawn(
    population: Seq<Seq<u8>>,
    drawn: Seq<usize>,
    position: int,
    fittest: usize,
)
    requires
        forall|j: int| 0 <= j < drawn.len() ==> drawn[j] < population.len(),
        is_winning_position(population, drawn, position),
        fittest < population.len(),
        forall|i: int|
            0 <= i < population.len() && i != fittest ==> gene_sum(#[trigger] population[i])
                < gene_sum(population[fittest as int]),
        drawn.contains(fittest),
    ensures
        drawn[position] == fittest,
{
    let at = choose|at: int| 0 <= at < drawn.len() && drawn[at] == fittest;
    if drawn[position] != fittest {
        assert(gene_sum(population[drawn[position] as int]) < gene_sum(population[drawn[at] as int]));
    }
}

/// The identifiers below `bound`, as a set, are `bound` in number.
proof fn lemma_count_below(bound: usize)
    ensures
        Set::new(|i: usize| i < bound).finite(),
        Set::new(|i: usize| i < bound).len() == bound,
    decreases bound,
{
    if bound == 0 {
        assert(Set::new(|i: usize| i < bound) =~= Set::<usize>::empty());
    } else {
        let fewer = (bound - 1) as usize;
        lemma_count_below(fewer);
        assert(Set::new(|i: usize| i < bound) =~= Set::new(|i: usize| i < fewer).insert(fewer));
    }
}

/// A tournament of the size of the population takes in every individual,
/// so that its winner is as fit as any individual of the population.
pub proof fn lemma_full_tournament_finds_the_fittest(
    population: Seq<Seq<u8>>,
    drawn: Seq<usize>,
    position: int,
)
    requires
        population.len() <= usize::MAX,
        is_tournament(drawn, population.len(), population.len()),
        is_winning_position(population, drawn, position),
    ensures
        forall|i: int|
            0 <= i < population.len() ==> gene_sum(#[trigger] population[i]) <= gene_sum(
                population[drawn[position] as int],
            ),
{
    let size = population.len() as usize;
    let all = Set::new(|i: usize| i < size);
    lemma_count_below(size);
    drawn.unique_seq_to_set();
    assert(drawn.to_set().subset_of(all)) by {
        assert forall|i: usize| drawn.to_set().contains(i) implies all.contains(i) by {
            let at = choose|at: int| 0 <= at < drawn.len() && drawn[at] == i;
            assert(drawn[at] < size);
        }
    }
    vstd::set_lib::lemma_set_subset_finite(all, drawn.to_set());
    vstd::set_lib::lemma_subset_equality(drawn.to_set(), all);
    assert forall|i: int| 0 <= i < population.len() implies gene_sum(#[trigger] population[i])
        <= gene_sum(population[drawn[position] as int]) by {
        assert(all.contains(i as usize));
        assert(drawn.to_set().contains(i as usize));
        let at = choose|at: int| 0 <= at < drawn.len() && drawn[at] == i as usize;
        assert(gene_sum(population[drawn[at] as int]) <= gene_sum(
            population[drawn[position] as int],
        ));
    }
}

/// A way to make the next generation out of the present one.
pub trait SelectionStrategy {
    /// The populations that the strategy can select from.
    spec fn accepts(&self, population: Seq<Seq<u8>>) -> bool;

    /// A new population of the size of the given one, which is left as it is.
    fn select(&self, population: &Population) -> (selected: Population)
        requires
            self.accepts(population@),
        ensures
            selected@.len() == population@.len(),
    ;
}

/// Selection by tournaments of `tournament_size` individuals each.
pub struct KTournamentSelection {
    pub tournament_size: usize,
}

impl SelectionStrategy for KTournamentSelection {
    /// A tournament takes at least one individual and no more than the
    /// population has.
    open spec fn accepts(&self, population: Seq<Seq<u8>>) -> bool {
        population.len() > 0 ==> 1 <= self.tournament_size <= population.len()
    }

    /// Holds as many tournaments as the population has individuals. For
    /// each, `tournament_size` different individuals are drawn at random,
    /// and a copy of the winner goes to the new population; an individual
    /// may win more than one tournament.
    fn select(&self, population: &Population) -> (selected: Population)
        ensures
            forall|t: int|
                0 <= t < selected@.len() ==> wins_a_tournament(
                    population@,
                    self.tournament_size as nat,
                    #[trigger] selected@[t],
                ),
    {
        let mut rng = thread_rng();
        let size = population.size();
        let individuals = population.individuals();
        let mut new_individuals: Vec<Chromosome> = Vec::with_capacity(size);
        let mut round: usize = 0;
        while round < size
            invariant
                round <= size,
                size == individuals@.len(),
                labellings(individuals@) == population@,
                1 <= self.tournament_size <= size || size == 0,
                new_individuals@.len() == round,
                forall|t: int|
                    0 <= t < round ==> wins_a_tournament(
                        population@,
                        self.tournament_size as nat,
                        (#[trigger] new_individuals@[t])@,
                    ),
            decreases size - round,
        {
            let drawn = choose_positions(individuals, self.tournament_size, &mut rng);
            let position = winning_position(individuals, drawn.as_slice());
            assert(is_tournament(drawn@, population@.len(), self.tournament_size as nat));
            let winner = individuals[drawn[position]].clone();
            new_individuals.push(winner);
            round = round + 1;
        }
        Population::new_from_individuals(new_individuals)
    }
}

} // verus!
