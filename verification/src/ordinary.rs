//! Classical state: a variable stores a value and keeps it over time.

use vstd::prelude::*;

verus! {

/// A variable that holds one value of a type that can be duplicated.
///
/// Nothing leaves the variable but duplicates of the stored value, so reading
/// never disturbs it.
pub struct OrdinaryVariable<T: Clone> {
    value: T,
}

impl<T: Clone> View for OrdinaryVariable<T> {
    type V = T;

    /// The stored value.
    closed spec fn view(&self) -> T {
        self.value
    }
}

impl<T: Clone> OrdinaryVariable<T> {
    /// Allocates a variable that holds `initial_value`.
    pub fn new(initial_value: T) -> (variable: OrdinaryVariable<T>)
        ensures
            variable@ == initial_value,
    {
        OrdinaryVariable { value: initial_value }
    }

    /// Stores a duplicate of what `other` holds. `other` keeps its value.
    pub fn set(&mut self, other: &mut OrdinaryVariable<T>)
        ensures
            cloned(old(other)@, final(self)@),
            final(other)@ == old(other)@,
    {
        self.value = other.get()
    }

    /// Reads the variable: hands out a duplicate of the stored value, which
    /// stays as it was.
    pub fn get(&mut self) -> (value: T)
        ensures
            cloned(old(self)@, value),
            final(self)@ == old(self)@,
    {
        self.value.clone()
    }
}

/// Replaces what `var` holds by its complement.
pub fn negate(var: &mut OrdinaryVariable<bool>)
    ensures
        final(var)@ == !old(var)@,
{
    let mut result = OrdinaryVariable::new(!var.get());
    var.set(&mut result);
}

/// Stores in `output` the conjunction of what `left` and `right` hold. Both
/// operands keep their values.
pub fn and(
    output: &mut OrdinaryVariable<bool>,
    left: &mut OrdinaryVariable<bool>,
    right: &mut OrdinaryVariable<bool>,
)
    ensures
        final(output)@ == (old(left)@ && old(right)@),
        final(left)@ == old(left)@,
        final(right)@ == old(right)@,
{
    let mut result = OrdinaryVariable::new(left.get() && right.get());
    output.set(&mut result);
}

/// Whether every duplicate of a `T` equals the value it was made from.
///
/// It holds of the primitive types and of every type whose `clone` promises an
/// equal value. A type may duplicate itself otherwise, and of such a type the
/// variable promises duplicates, not equal values.
pub open spec fn duplicates_exactly<T: Clone>() -> bool {
    forall|source: T, duplicate: T| #[trigger] cloned(source, duplicate) ==> source == duplicate
}

/// Booleans duplicate exactly.
pub proof fn lemma_bool_duplicates_exactly()
    ensures
        duplicates_exactly::<bool>(),
{
}

/// Copy fidelity. Let `target` be a variable after `set` from `source`,
/// `read_target` a value that `get` hands out of `target` and `read_source` one
/// that it hands out of `source`. Where duplicates are exact the two reads are
/// equal, and equal to what `source` holds.
pub proof fn lemma_copy_fidelity<T: Clone>(
    source: OrdinaryVariable<T>,
    target: OrdinaryVariable<T>,
    read_target: T,
    read_source: T,
)
    requires
        duplicates_exactly::<T>(),
        cloned(source@, target@),
        cloned(target@, read_target),
        cloned(source@, read_source),
    ensures
        read_target == read_source,
        read_source == source@,
{
}

/// Read transparency. Two values that `get` hands out of a variable that did
/// not change in between are equal, where duplicates are exact.
pub proof fn lemma_read_transparency<T: Clone>(
    variable: OrdinaryVariable<T>,
    first: T,
    second: T,
)
    requires
        duplicates_exactly::<T>(),
        cloned(variable@, first),
        cloned(variable@, second),
    ensures
        first == second,
{
}

} // verus!
