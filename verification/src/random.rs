//! The random source of the simulation.
//!
//! Everything in this module is trusted: the generator is an opaque value of
//! the `rand` crate, and the contracts of the functions below are believed,
//! not proved.

use rand::rngs::StdRng;
use rand::seq::SliceRandom;
use rand::Rng;
use vstd::prelude::*;

verus! {

/// `rand::rngs::StdRng`, carried through the library as an opaque value.
#[verifier::external_type_specification]
#[verifier::external_body]
pub struct ExStdRng(StdRng);

/// Draws an integer with `rand::Rng::random_range(low..high)`.
///
/// Trusted: the value lies in the half-open range. The call panics on an
/// empty range, which the precondition rules out. Nothing is claimed about
/// which value of the range comes back.
#[verifier::external_body]
pub(crate) fn random_in_range(rng: &mut StdRng, low: usize, high: usize) -> (value: usize)
    requires
        low < high,
    ensures
        low <= value < high,
{
    rng.random_range(low..high)
}

/// Permutes `order` in place with `rand::seq::SliceRandom::shuffle`.
///
/// Trusted: the slice afterwards holds the same items as before, each as
/// often as before. Nothing is claimed about their order.
#[verifier::external_body]
pub(crate) fn shuffle(order: &mut Vec<usize>, rng: &mut StdRng)
    ensures
        final(order)@.to_multiset() == old(order)@.to_multiset(),
{
    order.shuffle(rng);
}

} // verus!
