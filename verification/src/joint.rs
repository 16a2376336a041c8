//! Correlated state: several boolean variables under one joint distribution.
//!
//! A [`JointState`] gives a weight to every assignment of its base variables,
//! so it can say what no set of separate coins can: that two variables tend to
//! agree, or never do. An assignment is called an outcome and is numbered by
//! its bits: variable `i` is true in outcome `k` when bit `i` of `k` is set.
//! The probability of an outcome is its weight over the total weight.
//!
//! Observing a variable draws an outcome by weight, reads the variable in it
//! and then rules out every outcome that disagrees. The other variables are
//! not drawn: they keep whatever freedom the observation leaves them. A
//! variable derived from others with `not` and `and` is read in the same
//! outcomes, so observing it tells about its operands.

use vstd::arithmetic::power2::{
    lemma2_to64, lemma_pow2_strictly_increases, lemma_pow2_unfold, pow2,
};
use vstd::prelude::*;

use crate::rng::draw_below;

verus! {

/// The largest number of base variables of a joint state.
pub const MAX_VARIABLES: usize = 20;

/// How many outcomes `variables` base variables have: two to the power of
/// `variables`.
pub open spec fn outcomes(variables: nat) -> nat {
    pow2(variables)
}

/// Whether bit `position` of `outcome` is set, bit 0 being the lowest.
pub open spec fn bit(outcome: nat, position: nat) -> bool
    decreases position,
{
    if position == 0 {
        outcome % 2 == 1
    } else {
        bit(outcome / 2, (position - 1) as nat)
    }
}

/// The weight of the outcomes below `outcome`, taken together.
pub open spec fn weight_before(weights: Seq<u64>, outcome: int) -> nat
    decreases outcome,
{
    if outcome <= 0 {
        0
    } else {
        weight_before(weights, outcome - 1) + weights[outcome - 1] as nat
    }
}

/// The weight of all outcomes together.
pub open spec fn total_weight(weights: Seq<u64>) -> nat {
    weight_before(weights, weights.len() as int)
}

/// Whether `draw` falls to `outcome`: the draws are shared out in the order of
/// the outcomes, each outcome taking as many as its weight says.
pub open spec fn falls_to(weights: Seq<u64>, draw: nat, outcome: int) -> bool {
    &&& 0 <= outcome < weights.len()
    &&& weight_before(weights, outcome) <= draw < weight_before(weights, outcome) + weights[outcome]
}

/// The outcome that `draw` falls to.
pub open spec fn picked(weights: Seq<u64>, draw: nat) -> int {
    choose|outcome: int| falls_to(weights, draw, outcome)
}

/// The value of variable `id` in `outcome`, among `base` base variables and
/// the derived variables `derived`: a base variable is the bit of its id, a
/// derived one follows from its operands.
pub open spec fn value_in(base: nat, derived: Seq<Derived>, id: nat, outcome: nat) -> bool
    decreases id,
{
    if id < base {
        bit(outcome, id)
    } else if id < base + derived.len() {
        match derived[id - base] {
            Derived::Not(a) => a < id && !value_in(base, derived, a as nat, outcome),
            Derived::And(a, b) => a < id && b < id && value_in(base, derived, a as nat, outcome)
                && value_in(base, derived, b as nat, outcome),
        }
    } else {
        false
    }
}

/// How a derived variable follows from variables with smaller ids.
#[derive(Clone, Copy, Debug, PartialEq, Eq)]
pub enum Derived {
    /// True where the operand is false.
    Not(usize),
    /// True where both operands are true.
    And(usize, usize),
}

/// The mathematical content of a joint state.
pub struct JointView {
    /// The number of base variables; they have the ids below it.
    pub base: nat,
    /// The weight of each outcome of the base variables.
    pub weights: Seq<u64>,
    /// The derived variables in the order of their making: the first has the
    /// id `base`, the next `base + 1`, and so on.
    pub derived: Seq<Derived>,
}

impl JointView {
    /// The number of variables, base and derived.
    pub open spec fn variables(self) -> nat {
        self.base + self.derived.len()
    }

    /// The total weight.
    pub open spec fn total(self) -> nat {
        total_weight(self.weights)
    }

    /// Whether the operands of `derived` have ids below `id`.
    pub open spec fn operands_below(derived: Derived, id: int) -> bool {
        match derived {
            Derived::Not(a) => a < id,
            Derived::And(a, b) => a < id && b < id,
        }
    }

    /// What every joint state satisfies: there is a weight for each outcome,
    /// the total weight is positive and fits in 64 bits, and a derived
    /// variable speaks of earlier variables only.
    pub open spec fn wf(self) -> bool {
        &&& self.base <= MAX_VARIABLES
        &&& self.weights.len() == outcomes(self.base)
        &&& 0 < self.total() <= u64::MAX
        &&& self.variables() <= usize::MAX
        &&& forall|j: int|
            0 <= j < self.derived.len() ==> Self::operands_below(
                #[trigger] self.derived[j],
                self.base + j,
            )
    }

    /// The value of variable `id` in `outcome`.
    pub open spec fn value(self, id: nat, outcome: nat) -> bool {
        value_in(self.base, self.derived, id, outcome)
    }

    /// The outcome that `draw` falls to.
    pub open spec fn picked(self, draw: nat) -> nat {
        picked(self.weights, draw) as nat
    }

    /// What an observation of variable `id` on `draw` yields: the variable's
    /// value in the outcome that the draw falls to.
    pub open spec fn observation(self, id: nat, draw: nat) -> bool {
        self.value(id, self.picked(draw))
    }

    /// The state once variable `id` is known to be `value`: the outcomes that
    /// agree keep their weight, the others lose it.
    pub open spec fn conditioned(self, id: nat, value: bool) -> JointView {
        JointView {
            base: self.base,
            weights: Seq::new(
                self.weights.len(),
                |outcome: int|
                    if self.value(id, outcome as nat) == value {
                        self.weights[outcome]
                    } else {
                        0u64
                    },
            ),
            derived: self.derived,
        }
    }

    /// The state with one more derived variable, which gets the next free id.
    pub open spec fn with_derived(self, derived: Derived) -> JointView {
        JointView { base: self.base, weights: self.weights, derived: self.derived.push(derived) }
    }

    /// Whether nothing but `value` can be observed of variable `id`: every
    /// outcome that has weight gives it that value.
    pub open spec fn knows(self, id: nat, value: bool) -> bool {
        forall|outcome: int|
            0 <= outcome < self.weights.len() && #[trigger] self.weights[outcome] > 0
                ==> self.value(id, outcome as nat) == value
    }
}

/// Leaving outcomes out does not add weight.
pub proof fn lemma_weight_before_grows(weights: Seq<u64>, lower: int, upper: int)
    requires
        lower <= upper,
    ensures
        weight_before(weights, lower) <= weight_before(weights, upper),
    decreases upper - lower,
{
    if lower < upper {
        lemma_weight_before_grows(weights, lower, upper - 1);
    }
}

/// A draw falls to one outcome at most.
pub proof fn lemma_falls_to_one(weights: Seq<u64>, draw: nat, first: int, second: int)
    requires
        falls_to(weights, draw, first),
        falls_to(weights, draw, second),
    ensures
        first == second,
{
    if first < second {
        lemma_weight_before_grows(weights, first + 1, second);
    }
    if second < first {
        lemma_weight_before_grows(weights, second + 1, first);
    }
}

/// Every draw below the weight of the first `upper` outcomes falls to one of
/// them.
proof fn lemma_falls_somewhere(weights: Seq<u64>, draw: nat, upper: int)
    requires
        0 <= upper <= weights.len(),
        draw < weight_before(weights, upper),
    ensures
        exists|outcome: int| 0 <= outcome < upper && falls_to(weights, draw, outcome),
    decreases upper,
{
    if draw < weight_before(weights, upper - 1) {
        lemma_falls_somewhere(weights, draw, upper - 1);
    } else {
        assert(falls_to(weights, draw, upper - 1));
    }
}

/// Sampling is by weight. A draw below the total weight falls to exactly one
/// outcome, the picked one, and that outcome has weight: outcome `k` is
/// picked on `weights[k]` of the draws, those from the weight before it on.
pub proof fn lemma_picked_by_weight(weights: Seq<u64>, draw: nat)
    requires
        draw < total_weight(weights),
    ensures
        falls_to(weights, draw, picked(weights, draw)),
        weights[picked(weights, draw)] > 0,
        forall|outcome: int|
            falls_to(weights, draw, outcome) <==> outcome == picked(weights, draw),
{
    lemma_falls_somewhere(weights, draw, weights.len() as int);
    assert forall|outcome: int| falls_to(weights, draw, outcome) implies outcome == picked(
        weights,
        draw,
    ) by {
        lemma_falls_to_one(weights, draw, outcome, picked(weights, draw));
    }
}

/// Conditioning does not add weight.
pub proof fn lemma_conditioned_weighs_less(state: JointView, id: nat, value: bool, upper: int)
    requires
        0 <= upper <= state.weights.len(),
    ensures
        weight_before(state.conditioned(id, value).weights, upper) <= weight_before(
            state.weights,
            upper,
        ),
    decreases upper,
{
    if upper > 0 {
        lemma_conditioned_weighs_less(state, id, value, upper - 1);
    }
}

/// An observation leaves a joint state behind: the outcome that was drawn
/// agrees with what was seen and keeps its weight, so the total stays
/// positive, and it does not grow.
pub proof fn lemma_observation_keeps_state(state: JointView, id: nat, draw: nat)
    requires
        state.wf(),
        draw < state.total(),
    ensures
        state.conditioned(id, state.observation(id, draw)).wf(),
        state.conditioned(id, state.observation(id, draw)).total() <= state.total(),
{
    let seen = state.observation(id, draw);
    let after = state.conditioned(id, seen);
    let drawn = picked(state.weights, draw);
    lemma_picked_by_weight(state.weights, draw);
    lemma_conditioned_weighs_less(state, id, seen, state.weights.len() as int);
    assert(after.weights[drawn] == state.weights[drawn]);
    assert(weight_before(after.weights, drawn + 1) > 0);
    lemma_weight_before_grows(after.weights, drawn + 1, after.weights.len() as int);
}

/// Observation is a fixed point. Once variable `id` was observed on `draw`,
/// every later draw shows it as it was seen, and observing it again rules
/// nothing more out.
pub proof fn lemma_observation_is_fixed_point(state: JointView, id: nat, draw: nat, later: nat)
    requires
        state.wf(),
        draw < state.total(),
        later < state.conditioned(id, state.observation(id, draw)).total(),
    ensures
        state.conditioned(id, state.observation(id, draw)).observation(id, later)
            == state.observation(id, draw),
        state.conditioned(id, state.observation(id, draw)).conditioned(
            id,
            state.observation(id, draw),
        ) == state.conditioned(id, state.observation(id, draw)),
{
    let seen = state.observation(id, draw);
    let after = state.conditioned(id, seen);
    lemma_conditioned_knows(state, id, seen);
    lemma_known_is_observed(after, id, seen, later);
    assert(after.conditioned(id, seen).weights =~= after.weights);
}

/// What was seen is known: after variable `id` was found to be `value`, no
/// outcome with another value of it has weight.
pub proof fn lemma_conditioned_knows(state: JointView, id: nat, value: bool)
    ensures
        state.conditioned(id, value).knows(id, value),
{
}

/// What is known is what gets observed, on every draw.
pub proof fn lemma_known_is_observed(state: JointView, id: nat, value: bool, draw: nat)
    requires
        state.knows(id, value),
        draw < state.total(),
    ensures
        state.observation(id, draw) == value,
{
    lemma_picked_by_weight(state.weights, draw);
}

/// Knowledge lasts: what is known of variable `known` stays known when
/// variable `id` is found to be `seen`. So a draw is always consistent with
/// everything observed before.
pub proof fn lemma_knowledge_lasts(
    state: JointView,
    known: nat,
    value: bool,
    id: nat,
    seen: bool,
)
    requires
        state.knows(known, value),
    ensures
        state.conditioned(id, seen).knows(known, value),
{
}

/// Deriving a variable disturbs nothing: the variables that were there have
/// the values they had in every outcome and are observed as before on every
/// draw, the weights being the same.
pub proof fn lemma_derivation_keeps_values(
    state: JointView,
    derived: Derived,
    id: nat,
    outcome: nat,
)
    requires
        id < state.variables(),
    ensures
        state.with_derived(derived).value(id, outcome) == state.value(id, outcome),
        state.with_derived(derived).weights == state.weights,
        forall|draw: nat| #[trigger]
            state.with_derived(derived).observation(id, draw) == state.observation(id, draw),
    decreases id,
{
    lemma_pushed_keeps_value(state.base, state.derived, derived, id, outcome);
    assert forall|draw: nat| #[trigger]
        state.with_derived(derived).observation(id, draw) == state.observation(id, draw) by {
        lemma_pushed_keeps_value(state.base, state.derived, derived, id, state.picked(draw));
    }
}

/// One more derived variable at the end changes no value of those before it.
proof fn lemma_pushed_keeps_value(
    base: nat,
    derived: Seq<Derived>,
    last: Derived,
    id: nat,
    outcome: nat,
)
    requires
        id < base + derived.len(),
    ensures
        value_in(base, derived.push(last), id, outcome) == value_in(base, derived, id, outcome),
    decreases id,
{
    if id >= base {
        assert(derived.push(last)[id - base] == derived[id - base]);
        match derived[id - base] {
            Derived::Not(a) => {
                if a < id {
                    lemma_pushed_keeps_value(base, derived, last, a as nat, outcome);
                }
            },
            Derived::And(a, b) => {
                if a < id {
                    lemma_pushed_keeps_value(base, derived, last, a as nat, outcome);
                }
                if b < id {
                    lemma_pushed_keeps_value(base, derived, last, b as nat, outcome);
                }
            },
        }
    }
}

/// A derived variable is what its name says: in every outcome the negation
/// is the complement of its operand, and the conjunction is true exactly
/// where both operands are.
pub proof fn lemma_derived_value(state: JointView, derived: Derived, outcome: nat)
    requires
        JointView::operands_below(derived, state.variables() as int),
    ensures
        state.with_derived(derived).value(state.variables(), outcome) == match derived {
            Derived::Not(a) => !state.value(a as nat, outcome),
            Derived::And(a, b) => state.value(a as nat, outcome) && state.value(
                b as nat,
                outcome,
            ),
        },
{
    assert(state.derived.push(derived)[state.variables() - state.base] == derived);
    match derived {
        Derived::Not(a) => {
            lemma_pushed_keeps_value(state.base, state.derived, derived, a as nat, outcome);
        },
        Derived::And(a, b) => {
            lemma_pushed_keeps_value(state.base, state.derived, derived, a as nat, outcome);
            lemma_pushed_keeps_value(state.base, state.derived, derived, b as nat, outcome);
        },
    }
}

/// Observing a conjunction tells about its operands. Found true, both
/// operands are known to be true. Found false, the operands stay open, but
/// as soon as one of them is found true the other is known to be false.
pub proof fn lemma_and_tells_operands(
    state: JointView,
    conjunction: nat,
    left: usize,
    right: usize,
)
    requires
        state.wf(),
        state.base <= conjunction < state.variables(),
        state.derived[conjunction - state.base] == Derived::And(left, right),
    ensures
        state.conditioned(conjunction, true).knows(left as nat, true),
        state.conditioned(conjunction, true).knows(right as nat, true),
        state.conditioned(conjunction, false).conditioned(left as nat, true).knows(
            right as nat,
            false,
        ),
        state.conditioned(conjunction, false).conditioned(right as nat, true).knows(
            left as nat,
            false,
        ),
{
    assert(JointView::operands_below(
        state.derived[conjunction - state.base],
        state.base + (conjunction - state.base),
    ));
}

/// Observing a negation tells about its operand: the operand is known to be
/// the complement of what was seen.
pub proof fn lemma_not_tells_operand(
    state: JointView,
    negation: nat,
    operand: usize,
    seen: bool,
)
    requires
        state.wf(),
        state.base <= negation < state.variables(),
        state.derived[negation - state.base] == Derived::Not(operand),
    ensures
        state.conditioned(negation, seen).knows(operand as nat, !seen),
{
    assert(JointView::operands_below(
        state.derived[negation - state.base],
        state.base + (negation - state.base),
    ));
}

/// Weights that are all one add up to their number.
proof fn lemma_even_weights(weights: Seq<u64>, upper: int)
    requires
        0 <= upper <= weights.len(),
        forall|outcome: int| 0 <= outcome < weights.len() ==> weights[outcome] == 1,
    ensures
        weight_before(weights, upper) == upper,
    decreases upper,
{
    if upper > 0 {
        lemma_even_weights(weights, upper - 1);
    }
}

/// Within the limit on the variables the number of outcomes fits a machine
/// word with room to spare.
proof fn lemma_outcomes_bounded(variables: nat)
    requires
        variables <= MAX_VARIABLES,
    ensures
        0 < outcomes(variables) <= 0x10_0000,
{
    lemma2_to64();
    if variables < MAX_VARIABLES {
        lemma_pow2_strictly_increases(variables, MAX_VARIABLES as nat);
    }
    if variables > 0 {
        lemma_pow2_strictly_increases(0, variables);
    }
}

/// The number of outcomes of `variables` base variables.
fn count_outcomes(variables: usize) -> (count: usize)
    requires
        variables <= MAX_VARIABLES,
    ensures
        count == outcomes(variables as nat),
{
    let mut count: usize = 1;
    let mut done: usize = 0;
    proof {
        lemma2_to64();
    }
    while done < variables
        invariant
            done <= variables <= MAX_VARIABLES,
            count == outcomes(done as nat),
        decreases variables - done,
    {
        proof {
            lemma_outcomes_bounded((done + 1) as nat);
            lemma_pow2_unfold((done + 1) as nat);
        }
        count = count * 2;
        done = done + 1;
    }
    count
}

/// Whether bit `position` of `outcome` is set.
fn bit_at(outcome: usize, position: usize) -> (set: bool)
    ensures
        set == bit(outcome as nat, position as nat),
{
    let mut rest: usize = outcome;
    let mut passed: usize = 0;
    while passed < position
        invariant
            passed <= position,
            bit(outcome as nat, position as nat) == bit(rest as nat, (position - passed) as nat),
        decreases position - passed,
    {
        rest = rest / 2;
        passed = passed + 1;
    }
    rest % 2 == 1
}

/// The total of `weights`, where it fits in 64 bits.
fn checked_total(weights: &Vec<u64>) -> (sum: Option<u64>)
    ensures
        match sum {
            Some(total) => total == total_weight(weights@),
            None => total_weight(weights@) > u64::MAX,
        },
{
    let mut total: u64 = 0;
    let mut next: usize = 0;
    while next < weights.len()
        invariant
            next <= weights.len(),
            total == weight_before(weights@, next as int),
        decreases weights.len() - next,
    {
        if weights[next] > u64::MAX - total {
            proof {
                lemma_weight_before_grows(weights@, next + 1, weights.len() as int);
            }
            return None;
        }
        total = total + weights[next];
        next = next + 1;
    }
    Some(total)
}

/// Why weights make no joint distribution.
#[derive(Clone, Copy, Debug, PartialEq, Eq)]
pub enum InvalidDistribution {
    /// More base variables than `MAX_VARIABLES`.
    TooManyVariables,
    /// The number of weights is not the number of outcomes.
    WrongSize,
    /// The total weight does not fit in 64 bits.
    TooHeavy,
    /// Every weight is zero: nothing can happen.
    Weightless,
}

/// A variable was named that the joint state does not have.
#[derive(Clone, Copy, Debug, PartialEq, Eq)]
pub struct UnknownVariable;

/// Boolean variables that share one distribution.
#[derive(Debug)]
pub struct JointState {
    base: usize,
    weights: Vec<u64>,
    derived: Vec<Derived>,
}

impl View for JointState {
    type V = JointView;

    closed spec fn view(&self) -> JointView {
        JointView { base: self.base as nat, weights: self.weights@, derived: self.derived@ }
    }
}

impl JointState {
    /// Makes the joint state of `variables` base variables in which outcome
    /// `k` has the weight `weights[k]`.
    pub fn from_weights(variables: usize, weights: Vec<u64>) -> (made: Result<
        JointState,
        InvalidDistribution,
    >)
        ensures
            match made {
                Ok(state) => state@.wf() && state@ == (JointView {
                    base: variables as nat,
                    weights: weights@,
                    derived: Seq::empty(),
                }),
                Err(InvalidDistribution::TooManyVariables) => variables > MAX_VARIABLES,
                Err(InvalidDistribution::WrongSize) => variables <= MAX_VARIABLES && weights.len()
                    != outcomes(variables as nat),
                Err(InvalidDistribution::TooHeavy) => variables <= MAX_VARIABLES && weights.len()
                    == outcomes(variables as nat) && total_weight(weights@) > u64::MAX,
                Err(InvalidDistribution::Weightless) => variables <= MAX_VARIABLES && weights.len()
                    == outcomes(variables as nat) && total_weight(weights@) == 0,
            },
    {
        if variables > MAX_VARIABLES {
            return Err(InvalidDistribution::TooManyVariables);
        }
        if weights.len() != count_outcomes(variables) {
            return Err(InvalidDistribution::WrongSize);
        }
        match checked_total(&weights) {
            None => Err(InvalidDistribution::TooHeavy),
            Some(total) => {
                if total == 0 {
                    Err(InvalidDistribution::Weightless)
                } else {
                    Ok(JointState { base: variables, weights, derived: Vec::new() })
                }
            },
        }
    }

    /// Makes the joint state of `variables` base variables in which every
    /// outcome has the weight one: fair coins that know nothing of each
    /// other.
    pub fn uniform(variables: usize) -> (made: Result<JointState, InvalidDistribution>)
        ensures
            match made {
                Ok(state) => {
                    &&& variables <= MAX_VARIABLES
                    &&& state@.wf()
                    &&& state@ == (JointView {
                        base: variables as nat,
                        weights: Seq::new(outcomes(variables as nat), |outcome: int| 1u64),
                        derived: Seq::empty(),
                    })
                },
                Err(reason) => variables > MAX_VARIABLES && reason
                    == InvalidDistribution::TooManyVariables,
            },
    {
        if variables > MAX_VARIABLES {
            return Err(InvalidDistribution::TooManyVariables);
        }
        let count = count_outcomes(variables);
        let mut weights: Vec<u64> = Vec::new();
        while weights.len() < count
            invariant
                weights.len() <= count,
                forall|outcome: int| 0 <= outcome < weights.len() ==> weights[outcome] == 1,
            decreases count - weights.len(),
        {
            weights.push(1);
        }
        proof {
            lemma_outcomes_bounded(variables as nat);
            lemma_even_weights(weights@, weights.len() as int);
            assert(weights@ =~= Seq::new(outcomes(variables as nat), |outcome: int| 1u64));
        }
        JointState::from_weights(variables, weights)
    }

    /// The number of variables, base and derived.
    pub fn variables(&self) -> (count: usize)
        requires
            self@.wf(),
        ensures
            count == self@.variables(),
    {
        self.base + self.derived.len()
    }

    /// The total weight. It is never zero.
    pub fn total(&self) -> (total: u64)
        requires
            self@.wf(),
        ensures
            total == self@.total(),
            total > 0,
    {
        let mut total: u64 = 0;
        let mut next: usize = 0;
        while next < self.weights.len()
            invariant
                self@.wf(),
                next <= self.weights.len(),
                total == weight_before(self.weights@, next as int),
            decreases self.weights.len() - next,
        {
            proof {
                lemma_weight_before_grows(self.weights@, next + 1, self.weights.len() as int);
            }
            total = total + self.weights[next];
            next = next + 1;
        }
        total
    }

    /// The value of variable `id` in `outcome`.
    fn value_of(&self, id: usize, outcome: usize) -> (value: bool)
        requires
            self@.wf(),
            id < self@.variables(),
        ensures
            value == self@.value(id as nat, outcome as nat),
    {
        let mut values: Vec<bool> = Vec::new();
        let mut next: usize = 0;
        while next <= id
            invariant
                self@.wf(),
                id < self@.variables(),
                next <= id + 1,
                values.len() == next,
                forall|earlier: int|
                    0 <= earlier < next ==> values[earlier] == self@.value(
                        earlier as nat,
                        outcome as nat,
                    ),
            decreases id + 1 - next,
        {
            let value = if next < self.base {
                bit_at(outcome, next)
            } else {
                match self.derived[next - self.base] {
                    Derived::Not(a) => !values[a],
                    Derived::And(a, b) => values[a] && values[b],
                }
            };
            values.push(value);
            next = next + 1;
        }
        values[id]
    }

    /// The outcome that `draw` falls to.
    fn pick(&self, draw: u64) -> (outcome: usize)
        requires
            self@.wf(),
            draw < self@.total(),
        ensures
            outcome == self@.picked(draw as nat),
            outcome < self@.weights.len(),
    {
        let mut outcome: usize = 0;
        let mut before: u64 = 0;
        while draw - before >= self.weights[outcome]
            invariant
                outcome < self.weights.len(),
                before == weight_before(self.weights@, outcome as int),
                before <= draw < total_weight(self.weights@),
            decreases self.weights.len() - outcome,
        {
            before = before + self.weights[outcome];
            outcome = outcome + 1;
        }
        proof {
            assert(falls_to(self.weights@, draw as nat, outcome as int));
            lemma_picked_by_weight(self.weights@, draw as nat);
        }
        outcome
    }

    /// Observes variable `id` on a given draw. The draw falls to an outcome by
    /// weight; the result is the variable's value in it, and every outcome in
    /// which the variable has another value loses its weight. A variable
    /// that the state does not have is refused and nothing changes.
    pub fn observe_with(&mut self, id: usize, draw: u64) -> (seen: Result<bool, UnknownVariable>)
        requires
            old(self)@.wf(),
            draw < old(self)@.total(),
        ensures
            final(self)@.wf(),
            match seen {
                Ok(value) => {
                    &&& id < old(self)@.variables()
                    &&& value == old(self)@.observation(id as nat, draw as nat)
                    &&& final(self)@ == old(self)@.conditioned(id as nat, value)
                },
                Err(_) => id >= old(self)@.variables() && final(self)@ == old(self)@,
            },
    {
        if id >= self.variables() {
            return Err(UnknownVariable);
        }
        let drawn = self.pick(draw);
        let value = self.value_of(id, drawn);
        let mut kept: Vec<u64> = Vec::new();
        let mut outcome: usize = 0;
        while outcome < self.weights.len()
            invariant
                self@.wf(),
                id < self@.variables(),
                outcome <= self.weights.len(),
                kept.len() == outcome,
                forall|earlier: int|
                    0 <= earlier < outcome ==> kept[earlier] == self@.conditioned(
                        id as nat,
                        value,
                    ).weights[earlier],
            decreases self.weights.len() - outcome,
        {
            let weight = if self.value_of(id, outcome) == value {
                self.weights[outcome]
            } else {
                0
            };
            kept.push(weight);
            outcome = outcome + 1;
        }
        proof {
            assert(kept@ =~= self@.conditioned(id as nat, value).weights);
            lemma_observation_keeps_state(self@, id as nat, draw as nat);
        }
        self.weights = kept;
        Ok(value)
    }

    /// Observes variable `id` on a fresh draw, uniform below the total weight.
    pub fn observe(&mut self, id: usize) -> (seen: Result<bool, UnknownVariable>)
        requires
            old(self)@.wf(),
        ensures
            final(self)@.wf(),
            match seen {
                Ok(value) => {
                    &&& id < old(self)@.variables()
                    &&& exists|draw: nat|
                        draw < old(self)@.total() && value == #[trigger] old(self)@.observation(
                            id as nat,
                            draw,
                        )
                    &&& final(self)@ == old(self)@.conditioned(id as nat, value)
                },
                Err(_) => id >= old(self)@.variables() && final(self)@ == old(self)@,
            },
    {
        if id >= self.variables() {
            return Err(UnknownVariable);
        }
        let draw = draw_below(self.total());
        self.observe_with(id, draw)
    }

    /// Derives the variable that is true where `operand` is false, and hands
    /// back its id. No variable is observed and no weight changes.
    pub fn not(&mut self, operand: usize) -> (made: Result<usize, UnknownVariable>)
        requires
            old(self)@.wf(),
            old(self)@.variables() < usize::MAX,
        ensures
            final(self)@.wf(),
            match made {
                Ok(id) => {
                    &&& operand < old(self)@.variables()
                    &&& id == old(self)@.variables()
                    &&& final(self)@ == old(self)@.with_derived(Derived::Not(operand))
                },
                Err(_) => operand >= old(self)@.variables() && final(self)@ == old(self)@,
            },
    {
        let id = self.variables();
        if operand >= id {
            return Err(UnknownVariable);
        }
        self.derived.push(Derived::Not(operand));
        Ok(id)
    }

    /// Derives the variable that is true where `left` and `right` both are,
    /// and hands back its id. No variable is observed and no weight changes.
    pub fn and(&mut self, left: usize, right: usize) -> (made: Result<usize, UnknownVariable>)
        requires
            old(self)@.wf(),
            old(self)@.variables() < usize::MAX,
        ensures
            final(self)@.wf(),
            match made {
                Ok(id) => {
                    &&& left < old(self)@.variables()
                    &&& right < old(self)@.variables()
                    &&& id == old(self)@.variables()
                    &&& final(self)@ == old(self)@.with_derived(Derived::And(left, right))
                },
                Err(_) => {
                    &&& left >= old(self)@.variables() || right >= old(self)@.variables()
                    &&& final(self)@ == old(self)@
                },
            },
    {
        let id = self.variables();
        if left >= id || right >= id {
            return Err(UnknownVariable);
        }
        self.derived.push(Derived::And(left, right));
        Ok(id)
    }

    /// The chance of variable `id` as it stands: the weight of the outcomes in
    /// which it is true, and the total weight. Looking at it observes nothing.
    pub fn chance(&self, id: usize) -> (odds: Result<(u64, u64), UnknownVariable>)
        requires
            self@.wf(),
        ensures
            match odds {
                Ok((favourable, total)) => {
                    &&& id < self@.variables()
                    &&& favourable == self@.conditioned(id as nat, true).total()
                    &&& total == self@.total()
                    &&& favourable <= total
                },
                Err(_) => id >= self@.variables(),
            },
    {
        if id >= self.variables() {
            return Err(UnknownVariable);
        }
        let ghost narrowed = self@.conditioned(id as nat, true).weights;
        let mut favourable: u64 = 0;
        let mut outcome: usize = 0;
        while outcome < self.weights.len()
            invariant
                self@.wf(),
                id < self@.variables(),
                narrowed == self@.conditioned(id as nat, true).weights,
                outcome <= self.weights.len(),
                favourable == weight_before(narrowed, outcome as int),
            decreases self.weights.len() - outcome,
        {
            proof {
                lemma_conditioned_weighs_less(self@, id as nat, true, outcome + 1);
                lemma_weight_before_grows(self@.weights, outcome + 1, self.weights.len() as int);
            }
            if self.value_of(id, outcome) {
                favourable = favourable + self.weights[outcome];
            }
            outcome = outcome + 1;
        }
        proof {
            lemma_conditioned_weighs_less(self@, id as nat, true, self.weights.len() as int);
        }
        Ok((favourable, self.total()))
    }
}

} // verus!
