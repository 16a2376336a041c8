//! The closed unit interval of IEEE 754 binary64, by bit pattern.
//!
//! A probability and a draw are binary64 numbers. The library holds each as its
//! pattern of 64 bits: from the top the sign, eleven bits of exponent and
//! fifty-two of fraction. Among the patterns whose sign bit is clear and that
//! are no NaN, the larger number has the larger pattern read as an unsigned
//! integer. Zero is the pattern 0 and one is `0x3FF0_0000_0000_0000`, so the
//! numbers from zero to one are the patterns from 0 to that of one, in their
//! order, and comparing two of them is comparing two integers.
//!
//! `f64::to_bits` and `f64::from_bits` lead from a number to its pattern and
//! back.
//!
//! Every finite binary64 number is a whole multiple of two to the power of
//! minus 1074. [`numerator`] gives that multiple, and
//! [`lemma_patterns_order_as_numbers`] proves that patterns compare as their
//! numbers do.

use vstd::arithmetic::power2::{
    lemma2_to64, lemma2_to64_rest, lemma_pow2_adds, lemma_pow2_pos, lemma_pow2_strictly_increases,
    lemma_pow2_unfold, pow2,
};
use vstd::prelude::*;

verus! {

/// The pattern of positive zero.
pub const ZERO_BITS: u64 = 0;

/// The pattern of one.
pub const ONE_BITS: u64 = 0x3FF0_0000_0000_0000;

/// The pattern of negative zero, which compares equal to zero.
pub const NEGATIVE_ZERO_BITS: u64 = 0x8000_0000_0000_0000;

/// Whether `bits` is the pattern of a number `x` with `0 <= x <= 1`.
///
/// Negative zero is such a number. Every other pattern with the sign bit set,
/// every pattern above that of one, the infinities and the NaNs are not.
pub open spec fn in_unit_interval(bits: u64) -> bool {
    bits <= ONE_BITS || bits == NEGATIVE_ZERO_BITS
}

/// The pattern that stands for the number of `bits`: negative zero becomes
/// positive zero, every other pattern is kept.
pub open spec fn canonical(bits: u64) -> u64 {
    if bits == NEGATIVE_ZERO_BITS {
        ZERO_BITS
    } else {
        bits
    }
}

/// Whether `bits` is the canonical pattern of a probability: a number from zero
/// to one, both included.
pub open spec fn is_probability(bits: u64) -> bool {
    bits <= ONE_BITS
}

/// Whether `bits` is the pattern of a uniform draw: a number from zero to one,
/// zero included and one excluded, zero being positive zero.
pub open spec fn is_unit_sample(bits: u64) -> bool {
    bits < ONE_BITS
}

/// Two to the power of 52: the weight of the lowest exponent bit.
pub const HIDDEN_BIT: u64 = 0x10_0000_0000_0000;

/// The pattern of positive infinity, above every pattern of a finite number
/// whose sign bit is clear.
pub const INFINITY_BITS: u64 = 0x7FF0_0000_0000_0000;

/// The exponent field of a pattern whose sign bit is clear.
pub open spec fn exponent_field(bits: u64) -> nat {
    (bits / HIDDEN_BIT) as nat
}

/// The fraction field of a pattern.
pub open spec fn fraction_field(bits: u64) -> nat {
    (bits % HIDDEN_BIT) as nat
}

/// The number of a finite pattern whose sign bit is clear, as a multiple of
/// two to the power of minus 1074: the number is `numerator(bits)` over
/// `pow2(1074)`.
///
/// With the exponent field zero the number is subnormal and the multiple is
/// the fraction field. Otherwise the fraction gets the hidden bit in front
/// and is doubled once for each step of the exponent above one.
pub open spec fn numerator(bits: u64) -> nat {
    if exponent_field(bits) == 0 {
        fraction_field(bits)
    } else {
        (HIDDEN_BIT as nat + fraction_field(bits)) * pow2((exponent_field(bits) - 1) as nat)
    }
}

/// A number is below the first number of the next exponent.
proof fn lemma_numerator_below_next_exponent(bits: u64)
    ensures
        numerator(bits) < HIDDEN_BIT * pow2(exponent_field(bits)),
{
    let exponent = exponent_field(bits);
    let fraction = fraction_field(bits);
    if exponent == 0 {
        lemma2_to64();
    } else {
        let lower = pow2((exponent - 1) as nat);
        lemma_pow2_unfold(exponent);
        lemma_pow2_pos((exponent - 1) as nat);
        assert((HIDDEN_BIT + fraction) * lower < HIDDEN_BIT * (2 * lower)) by (nonlinear_arith)
            requires
                fraction < HIDDEN_BIT,
                lower > 0,
        ;
    }
}

/// The larger pattern stands for the larger number.
proof fn lemma_numerator_increases(smaller: u64, larger: u64)
    requires
        smaller < larger,
    ensures
        numerator(smaller) < numerator(larger),
{
    let exponent = exponent_field(larger);
    let fraction = fraction_field(larger);
    if exponent_field(smaller) == exponent {
        if exponent > 0 {
            let scale = pow2((exponent - 1) as nat);
            lemma_pow2_pos((exponent - 1) as nat);
            assert((HIDDEN_BIT + fraction_field(smaller)) * scale < (HIDDEN_BIT + fraction)
                * scale) by (nonlinear_arith)
                requires
                    fraction_field(smaller) < fraction,
                    scale > 0,
            ;
        }
    } else {
        let scale = pow2((exponent - 1) as nat);
        let reach = pow2(exponent_field(smaller));
        lemma_numerator_below_next_exponent(smaller);
        if exponent_field(smaller) < exponent - 1 {
            lemma_pow2_strictly_increases(exponent_field(smaller), (exponent - 1) as nat);
        }
        assert(HIDDEN_BIT * reach <= (HIDDEN_BIT + fraction) * scale) by (nonlinear_arith)
            requires
                reach <= scale,
                fraction >= 0,
        ;
    }
}

/// Patterns compare as their numbers do: of two patterns with the sign bit
/// clear, one is at most the other exactly when its number is at most the
/// other's.
pub proof fn lemma_patterns_order_as_numbers(left: u64, right: u64)
    requires
        left < INFINITY_BITS,
        right < INFINITY_BITS,
    ensures
        left <= right <==> numerator(left) <= numerator(right),
        left == right <==> numerator(left) == numerator(right),
{
    if left < right {
        lemma_numerator_increases(left, right);
    }
    if right < left {
        lemma_numerator_increases(right, left);
    }
}

/// The pattern of zero stands for zero and the pattern of one for one, which
/// is `pow2(1074)` over `pow2(1074)`. So the canonical patterns of the
/// probabilities are those of the numbers from zero to one, and the patterns
/// of the uniform draws are those of the numbers from zero up to one, one
/// excluded.
pub proof fn lemma_numbers_of_the_unit_interval(bits: u64)
    requires
        bits < INFINITY_BITS,
    ensures
        numerator(ZERO_BITS) == 0,
        numerator(ONE_BITS) == pow2(1074),
        is_probability(bits) <==> numerator(bits) <= pow2(1074),
        is_unit_sample(bits) <==> numerator(bits) < pow2(1074),
{
    lemma2_to64_rest();
    lemma_pow2_adds(52, 1022);
    assert(exponent_field(ONE_BITS) == 1023);
    assert(fraction_field(ONE_BITS) == 0);
    lemma_patterns_order_as_numbers(bits, ONE_BITS);
}

} // verus!
