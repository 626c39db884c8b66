//! The source of coin flips: the standard generator of the `rand` crate.

use rand::rngs::StdRng;
use rand::Rng;
use vstd::prelude::*;

verus! {

/// `rand::rngs::StdRng`, the standard generator. Its state is opaque here: a
/// value is only carried from where it was seeded to where it is drawn from.
#[verifier::external_type_specification]
#[verifier::external_body]
pub struct ExStdRng(StdRng);

/// `Rng::gen::<bool>` on the standard generator: one fair coin flip, which
/// advances the generator. The outcome is whatever the generator yields, so
/// nothing is promised of it.
#[verifier::external_body]
pub(crate) fn flip(rng: &mut StdRng) -> (right: bool) {
    rng.gen::<bool>()
}

} // verus!
