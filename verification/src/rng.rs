//! Trusted boundary to the `rand` crate: the thread-local generator
//! type and thin wrappers around the draws the library makes.
//!
//! Every random outcome is constrained only by what holds of every
//! draw (its range); the logic that consumes a draw is verified for
//! all values the wrapper may hand back.

use vstd::prelude::*;
use rand::Rng;

verus! {

#[verifier::external_type_specification]
#[verifier::external_body]
pub struct ExThreadRng(rand::rngs::ThreadRng);

/// Relies on `rand::thread_rng`: a handle to the thread-local
/// generator, usable for any sequence of draws.
#[verifier::external_body]
pub fn fresh_rng() -> rand::rngs::ThreadRng {
    rand::thread_rng()
}

/// Relies on `rand::Rng::gen_range` at `u32`: a draw from the
/// half-open range `lo..hi`, which panics only on an empty range.
#[verifier::external_body]
pub fn gen_u32_range(rng: &mut rand::rngs::ThreadRng, lo: u32, hi: u32) -> (r: u32)
    requires
        lo < hi,
    ensures
        lo <= r < hi,
{
    rng.gen_range(lo..hi)
}

/// Relies on `rand::Rng::gen_range` at `usize`: a draw from the
/// half-open range `lo..hi`, which panics only on an empty range.
#[verifier::external_body]
pub fn gen_usize_range(rng: &mut rand::rngs::ThreadRng, lo: usize, hi: usize) -> (r: usize)
    requires
        lo < hi,
    ensures
        lo <= r < hi,
{
    rng.gen_range(lo..hi)
}

/// Relies on `rand::Rng::gen_range` at `u128`: a draw from the
/// half-open range `lo..hi`, which panics only on an empty range.
#[verifier::external_body]
pub fn gen_u128_range(rng: &mut rand::rngs::ThreadRng, lo: u128, hi: u128) -> (r: u128)
    requires
        lo < hi,
    ensures
        lo <= r < hi,
{
    rng.gen_range(lo..hi)
}

/// Relies on `rand::Rng::gen_ratio`: `true` with probability
/// `numerator / denominator`; always `true` when the ratio is one and
/// always `false` when the numerator is zero; panics only when the
/// denominator is zero or the numerator exceeds it.
#[verifier::external_body]
pub fn coin(rng: &mut rand::rngs::ThreadRng, numerator: u32, denominator: u32) -> (r: bool)
    requires
        1 <= denominator,
        numerator <= denominator,
    ensures
        numerator == denominator ==> r,
        numerator == 0 ==> !r,
{
    rng.gen_ratio(numerator, denominator)
}

} // verus!
