//! The random number generator that observations draw from.
//!
//! Everything that the library takes from the generator passes through this
//! module. Each function here is taken on trust: its contract says what the
//! generator documents of the call, and nothing here proves it.
//!
//! The generator is the one that `rand` keeps for each thread. It seeds itself
//! from the operating system when a thread first asks for it, and panics there
//! if the system has no entropy to give.

use rand::Rng;
use vstd::prelude::*;

use crate::binary64::is_unit_sample;

verus! {

/// Draws the next number of `rand::thread_rng()` with `Rng::next_f64` and hands
/// back its binary64 pattern.
///
/// Taken on trust: the drawn number lies between zero and one, zero included
/// and one excluded, and a zero is positive zero; so its pattern is below that
/// of one. Which number comes is left open.
#[verifier::external_body]
pub(crate) fn draw_unit_sample() -> (sample: u64)
    ensures
        is_unit_sample(sample),
{
    rand::thread_rng().next_f64().to_bits()
}

/// Draws a number below `bound` from `rand::thread_rng()` with
/// `Rng::gen_range`, the range starting at zero.
///
/// Taken on trust: the drawn number is below `bound`. The generator panics on
/// an empty range, so the bound must not be zero. Which number comes is left
/// open.
#[verifier::external_body]
pub(crate) fn draw_below(bound: u64) -> (draw: u64)
    requires
        bound > 0,
    ensures
        draw < bound,
{
    rand::thread_rng().gen_range(0, bound)
}

} // verus!
