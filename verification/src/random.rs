//! Probabilistic state: a boolean whose value is drawn when it is first read.

use vstd::prelude::*;

use crate::binary64::{
    canonical, in_unit_interval, is_probability, is_unit_sample, lemma_patterns_order_as_numbers,
    numerator, NEGATIVE_ZERO_BITS, ONE_BITS, ZERO_BITS,
};
use crate::rng::draw_unit_sample;

verus! {

/// What an observation yields: a variable that is true with the probability
/// `prob_true` reads true on the draw `sample` exactly when the draw is at
/// most the probability. Both are binary64 patterns of the unit interval,
/// which compare as their numbers do.
pub open spec fn outcome(prob_true: u64, sample: u64) -> bool {
    sample <= prob_true
}

/// The probability of a variable that is certain to be `value`: one for true,
/// zero for false.
pub open spec fn collapsed(value: bool) -> u64 {
    if value {
        ONE_BITS
    } else {
        ZERO_BITS
    }
}

/// A probability was asked for that is no number from zero to one.
#[derive(Debug, Clone, Copy, PartialEq, Eq)]
pub struct InvalidProbability;

/// A coin that is flipped when somebody looks.
///
/// It holds the probability of being true and nothing else, so it cannot be
/// correlated with another variable. The first read draws the value and leaves
/// the variable certain of it.
#[derive(Debug)]
pub struct RandomBool {
    prob_true: u64,
}

impl View for RandomBool {
    type V = u64;

    /// The binary64 pattern of the probability of being true.
    closed spec fn view(&self) -> u64 {
        self.prob_true
    }
}

impl RandomBool {
    #[verifier::type_invariant]
    spec fn holds_probability(self) -> bool {
        is_probability(self.prob_true)
    }

    /// Allocates a coin that is true with the probability whose binary64
    /// pattern is `prob_true_bits`. The pattern of a number from zero to one
    /// is taken, negative zero for zero; every other pattern is refused.
    pub fn new(prob_true_bits: u64) -> (made: Result<RandomBool, InvalidProbability>)
        ensures
            match made {
                Ok(variable) => in_unit_interval(prob_true_bits) && variable@ == canonical(
                    prob_true_bits,
                ),
                Err(_) => !in_unit_interval(prob_true_bits),
            },
    {
        if prob_true_bits <= ONE_BITS {
            Ok(RandomBool { prob_true: prob_true_bits })
        } else if prob_true_bits == NEGATIVE_ZERO_BITS {
            Ok(RandomBool { prob_true: ZERO_BITS })
        } else {
            Err(InvalidProbability)
        }
    }

    /// Allocates a variable that is certain to be `value`.
    pub fn certain(value: bool) -> (variable: RandomBool)
        ensures
            variable@ == collapsed(value),
    {
        RandomBool { prob_true: if value { ONE_BITS } else { ZERO_BITS } }
    }

    /// Observes the variable on a given draw: the result is true exactly when
    /// `sample` is at most the probability, and the variable is certain of the
    /// result from then on.
    pub fn get_with(&mut self, sample: u64) -> (result: bool)
        requires
            is_unit_sample(sample),
        ensures
            result == outcome(old(self)@, sample),
            final(self)@ == collapsed(result),
    {
        let result = sample <= self.prob_true;
        self.prob_true = if result { ONE_BITS } else { ZERO_BITS };
        result
    }

    /// Flips the coin: observes the variable on a fresh uniform draw.
    pub fn get(&mut self) -> (result: bool)
        ensures
            exists|sample: u64|
                is_unit_sample(sample) && result == #[trigger] outcome(old(self)@, sample),
            final(self)@ == collapsed(result),
    {
        let sample = draw_unit_sample();
        self.get_with(sample)
    }

    /// Assigns on a given draw: observes `other` on `sample` and makes this
    /// variable certain of what was seen. Both variables then hold the same
    /// realized value; the probability that `other` had is not copied.
    pub fn set_with(&mut self, other: &mut RandomBool, sample: u64)
        requires
            is_unit_sample(sample),
        ensures
            final(other)@ == collapsed(outcome(old(other)@, sample)),
            final(self)@ == final(other)@,
    {
        self.prob_true = if other.get_with(sample) { ONE_BITS } else { ZERO_BITS };
    }

    /// Assigns: observes `other` on a fresh uniform draw and makes this
    /// variable certain of what was seen.
    pub fn set(&mut self, other: &mut RandomBool)
        ensures
            exists|sample: u64|
                is_unit_sample(sample) && final(other)@ == collapsed(
                    #[trigger] outcome(old(other)@, sample),
                ),
            final(self)@ == final(other)@,
    {
        self.prob_true = if other.get() { ONE_BITS } else { ZERO_BITS };
    }

    /// The binary64 pattern of the probability of being true, as it stands.
    /// Looking at it observes nothing.
    pub fn prob_true_bits(&self) -> (bits: u64)
        ensures
            bits == self@,
            is_probability(bits),
    {
        proof {
            use_type_invariant(self);
        }
        self.prob_true
    }
}

/// Negates on a given draw: observes `var` on `sample` and leaves it certain of
/// the complement of what was seen.
pub fn negate_with(var: &mut RandomBool, sample: u64)
    requires
        is_unit_sample(sample),
    ensures
        final(var)@ == collapsed(!outcome(old(var)@, sample)),
{
    let seen = var.get_with(sample);
    *var = RandomBool::certain(!seen);
}

/// Negates: observes `var` on a fresh uniform draw and leaves it certain of the
/// complement of what was seen.
pub fn negate(var: &mut RandomBool)
    ensures
        exists|sample: u64|
            is_unit_sample(sample) && final(var)@ == collapsed(
                !#[trigger] outcome(old(var)@, sample),
            ),
{
    let seen = var.get();
    *var = RandomBool::certain(!seen);
}

/// Conjunction on given draws: observes `left` on `left_sample` and `right` on
/// `right_sample`, whatever `left` turned out to be, and leaves `output`
/// certain of the conjunction of what was seen. `output` itself is not
/// observed.
pub fn and_with(
    output: &mut RandomBool,
    left: &mut RandomBool,
    right: &mut RandomBool,
    left_sample: u64,
    right_sample: u64,
)
    requires
        is_unit_sample(left_sample),
        is_unit_sample(right_sample),
    ensures
        final(left)@ == collapsed(outcome(old(left)@, left_sample)),
        final(right)@ == collapsed(outcome(old(right)@, right_sample)),
        final(output)@ == collapsed(
            outcome(old(left)@, left_sample) && outcome(old(right)@, right_sample),
        ),
{
    let seen_left = left.get_with(left_sample);
    let seen_right = right.get_with(right_sample);
    *output = RandomBool::certain(seen_left && seen_right);
}

/// Conjunction: observes `left` and `right`, each on a fresh uniform draw of
/// its own, and leaves `output` certain of the conjunction of what was seen.
pub fn and(output: &mut RandomBool, left: &mut RandomBool, right: &mut RandomBool)
    ensures
        exists|sample: u64|
            is_unit_sample(sample) && final(left)@ == collapsed(
                #[trigger] outcome(old(left)@, sample),
            ),
        exists|sample: u64|
            is_unit_sample(sample) && final(right)@ == collapsed(
                #[trigger] outcome(old(right)@, sample),
            ),
        final(output)@ == collapsed(final(left)@ == ONE_BITS && final(right)@ == ONE_BITS),
{
    let seen_left = left.get();
    let seen_right = right.get();
    *output = RandomBool::certain(seen_left && seen_right);
}

/// An observation compares numbers: the variable reads true exactly when the
/// drawn number is at most the probability.
pub proof fn lemma_outcome_compares_numbers(prob_true: u64, sample: u64)
    requires
        is_probability(prob_true),
        is_unit_sample(sample),
    ensures
        outcome(prob_true, sample) <==> numerator(sample) <= numerator(prob_true),
{
    lemma_patterns_order_as_numbers(sample, prob_true);
}

/// A variable that is certain to be true reads true on every draw.
pub proof fn lemma_certain_true_reads_true(sample: u64)
    requires
        is_unit_sample(sample),
    ensures
        outcome(collapsed(true), sample),
        outcome(ONE_BITS, sample),
{
}

/// A variable that is certain to be false reads false on every draw but zero.
/// A draw of exactly zero is at most every probability, that of zero too, and
/// reads true.
pub proof fn lemma_certain_false_reads_false(sample: u64)
    requires
        is_unit_sample(sample),
        sample != ZERO_BITS,
    ensures
        !outcome(collapsed(false), sample),
        !outcome(ZERO_BITS, sample),
{
}

/// Observation is a fixed point. A variable that was observed on `first` reads
/// on the draw `later` as it read then, and stays certain of it, unless it
/// read false and `later` is exactly zero.
pub proof fn lemma_collapse_fixed_point(prob_true: u64, first: u64, later: u64)
    requires
        is_probability(prob_true),
        is_unit_sample(first),
        is_unit_sample(later),
        outcome(prob_true, first) || later != ZERO_BITS,
    ensures
        outcome(collapsed(outcome(prob_true, first)), later) == outcome(prob_true, first),
        collapsed(outcome(collapsed(outcome(prob_true, first)), later)) == collapsed(
            outcome(prob_true, first),
        ),
{
}

/// Assignment couples. After `dime.set(&mut nickel)` on the draw `at_set`, the
/// two variables are certain of one value whatever their probabilities were,
/// and reading `dime` on `at_dime` and `nickel` on `at_nickel` gives one
/// boolean, unless that value is false and exactly one of the two later draws
/// is zero.
pub proof fn lemma_assignment_coupling(nickel: u64, at_set: u64, at_dime: u64, at_nickel: u64)
    requires
        is_probability(nickel),
        is_unit_sample(at_set),
        is_unit_sample(at_dime),
        is_unit_sample(at_nickel),
        outcome(nickel, at_set) || ((at_dime == ZERO_BITS) == (at_nickel == ZERO_BITS)),
    ensures
        outcome(collapsed(outcome(nickel, at_set)), at_dime) == outcome(
            collapsed(outcome(nickel, at_set)),
            at_nickel,
        ),
{
}

/// The conjunction reads as its operands do. After `and` observed `left` on
/// `at_left` and `right` on `at_right`, reading `output` on `then_output`
/// gives the conjunction of reading `left` on `then_left` and `right` on
/// `then_right`. Where the conjunction was false, zero draws can make a read
/// true: the law then holds exactly when `then_output` is zero if and only if
/// every operand that was seen false is read on a zero.
pub proof fn lemma_and_reads_as_operands(
    left: u64,
    right: u64,
    at_left: u64,
    at_right: u64,
    then_output: u64,
    then_left: u64,
    then_right: u64,
)
    requires
        is_probability(left),
        is_probability(right),
        is_unit_sample(at_left),
        is_unit_sample(at_right),
        is_unit_sample(then_output),
        is_unit_sample(then_left),
        is_unit_sample(then_right),
        (outcome(left, at_left) && outcome(right, at_right)) || ((then_output == ZERO_BITS) == ((
            outcome(left, at_left) || then_left == ZERO_BITS) && (outcome(right, at_right)
            || then_right == ZERO_BITS))),
    ensures
        outcome(collapsed(outcome(left, at_left) && outcome(right, at_right)), then_output) == (
            outcome(collapsed(outcome(left, at_left)), then_left) && outcome(
                collapsed(outcome(right, at_right)),
                then_right,
            )),
{
}

} // verus!
