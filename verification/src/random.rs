//! The random draws. They are made by the `rand` crate; what is stated of
//! them here is taken on trust from its documentation and source.

use crate::genetic::chromosome::Chromosome;
use rand::rngs::ThreadRng;
use rand::seq::{IteratorRandom, SliceRandom};
use vstd::prelude::*;

verus! {

/// `rand::rngs::ThreadRng`, the handle to the generator of the current
/// thread. Nothing is known of what it holds.
#[verifier::external_type_specification]
#[verifier::external_body]
pub struct ExThreadRng(rand::rngs::ThreadRng);

/// `rand::thread_rng` hands out the generator of the current thread, which
/// the system seeds. Nothing is claimed of the generator. The call panics
/// where the system cannot provide a seed.
pub assume_specification[ rand::thread_rng ]() -> (rng: ThreadRng);

/// `rand::seq::SliceRandom::choose` on the candidates: one of them, each
/// with the same probability, or `None` where there is no candidate. The
/// contract claims only that what is chosen is one of the candidates, and
/// that something is chosen whenever there is one.
#[verifier::external_body]
pub(crate) fn choose_one(candidates: &Vec<usize>, rng: &mut ThreadRng) -> (chosen: Option<usize>)
    ensures
        match chosen {
            Some(candidate) => candidates@.contains(candidate),
            None => candidates@.len() == 0,
        },
{
    candidates.choose(rng).copied()
}

/// `rand::seq::IteratorRandom::choose_multiple` on the positions of
/// `individuals`: `amount` of them, drawn at random without replacement, in
/// an order that is neither stable nor fully random. The contract claims
/// that exactly `amount` positions come back, that each lies within
/// `individuals`, and that none comes twice; nothing is claimed of their
/// order. No more positions are asked for than there are individuals, so
/// the buffer of the draw is no larger than the population itself.
#[verifier::external_body]
pub(crate) fn choose_positions(
    individuals: &[Chromosome],
    amount: usize,
    rng: &mut ThreadRng,
) -> (drawn: Vec<usize>)
    requires
        amount <= individuals@.len(),
    ensures
        drawn@.len() == amount,
        forall|j: int| 0 <= j < drawn@.len() ==> drawn@[j] < individuals@.len(),
        drawn@.no_duplicates(),
{
    (0..individuals.len()).choose_multiple(rng, amount)
}

} // verus!
