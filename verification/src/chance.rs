//! Random decisions.
//!
//! A random decision has no value that a contract could name: each of these
//! says only what holds of every outcome.

use rand::rngs::ThreadRng;
use rand::seq::SliceRandom;
use rand::Rng;
use vstd::prelude::*;

verus! {

#[verifier::external_type_specification]
#[verifier::external_body]
pub struct ExThreadRng(rand::rngs::ThreadRng);

/// Calls `SliceRandom::choose` on the choices: one of them, and none where
/// there is none to choose from.
#[verifier::external_body]
pub(crate) fn choose_one(rng: &mut ThreadRng, choices: &[&'static str]) -> (r: Option<&'static str>)
    ensures
        choices@.len() == 0 ==> r is None,
        choices@.len() > 0 ==> r is Some && choices@.contains(r->Some_0),
{
    choices.choose(rng).copied()
}

/// Calls `Rng::gen_range` on `lo..=hi`: a number within the range. The outside
/// function panics on an empty range.
#[verifier::external_body]
pub(crate) fn gen_range(rng: &mut ThreadRng, lo: usize, hi: usize) -> (r: usize)
    requires
        lo <= hi,
    ensures
        lo <= r <= hi,
{
    rng.gen_range(lo..=hi)
}

/// Calls `Rng::gen_ratio`: true for certain where the two numbers are equal,
/// false for certain where the numerator is 0. The outside function panics on
/// a denominator of 0 and on a numerator above the denominator.
#[verifier::external_body]
pub(crate) fn gen_ratio(rng: &mut ThreadRng, numerator: u32, denominator: u32) -> (r: bool)
    requires
        0 < denominator,
        numerator <= denominator,
    ensures
        numerator == denominator ==> r,
        numerator == 0 ==> !r,
{
    rng.gen_ratio(numerator, denominator)
}

} // verus!
