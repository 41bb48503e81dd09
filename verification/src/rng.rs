//! The random number generator that the simulation draws from.

use vstd::prelude::*;

verus! {

/// The generator `rand_chacha::ChaCha20Rng`, of which nothing is known here
/// but that it can be drawn from.
#[verifier::external_type_specification]
#[verifier::external_body]
pub struct ExChaCha20Rng(rand_chacha::ChaCha20Rng);

/// Draws a `bool` that is `true` with a chance of `numerator` in
/// `denominator`, by `rand::Rng::gen_ratio`.
///
/// The draw is certain where the two numbers are equal or the first is zero;
/// nothing else is claimed of it. The call panics where the second number is
/// zero or less than the first, which the precondition leaves out.
#[verifier::external_body]
pub(crate) fn gen_ratio(rng: &mut rand_chacha::ChaCha20Rng, numerator: u32, denominator: u32) -> (hit:
    bool)
    requires
        denominator > 0,
        numerator <= denominator,
    ensures
        numerator == denominator ==> hit,
        numerator == 0 ==> !hit,
{
    rand::Rng::gen_ratio(rng, numerator, denominator)
}

/// Draws a number, by `rand::Rng::gen`. Nothing is claimed of it.
#[verifier::external_body]
pub(crate) fn gen_u32(rng: &mut rand_chacha::ChaCha20Rng) -> u32 {
    rand::Rng::gen::<u32>(rng)
}

} // verus!
