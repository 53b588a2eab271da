//! The comparison of two scalars.

use crate::comparators::ElementwiseComparator;
use vstd::prelude::*;

verus! {

/// Why two scalars did not compare equal.
#[derive(Debug, Clone, PartialEq)]
pub struct ScalarComparisonFailure<T, E> {
    pub left: T,
    pub right: T,
    pub error: E,
    pub comparator_description: String,
}

/// Whether `result` is the outcome of comparing `left` with `right` by
/// `comparator`: success where the comparator accepts the pair, and else a
/// failure with the two values, what the comparator says of them, and a
/// description of the comparator.
pub open spec fn is_scalar_comparison_result<T, C: ElementwiseComparator<T>>(
    left: T,
    right: T,
    comparator: C,
    result: Result<(), ScalarComparisonFailure<T, C::Error>>,
) -> bool {
    match result {
        Ok(()) => comparator.outcome(left, right) is Ok,
        Err(failure) => {
            &&& comparator.outcome(left, right) == Err::<(), C::Error>(failure.error)
            &&& failure.left == left
            &&& failure.right == right
            &&& comparator.describes(failure.comparator_description@)
        },
    }
}

/// Compares two scalars.
pub fn compare_scalars<T, C>(left: &T, right: &T, comparator: C) -> (r: Result<
    (),
    ScalarComparisonFailure<T, C::Error>,
>) where T: Copy, C: ElementwiseComparator<T>
    requires
        comparator.comparable(*left, *right),
    ensures
        is_scalar_comparison_result(*left, *right, comparator, r),
{
    match comparator.compare(left, right) {
        Ok(()) => Ok(()),
        Err(error) => Err(
            ScalarComparisonFailure {
                comparator_description: comparator.description(),
                left: *left,
                right: *right,
                error,
            },
        ),
    }
}

/// A scalar compares equal to itself under every comparator that accepts a
/// value paired with itself.
pub proof fn scalar_matches_itself<T, C: ElementwiseComparator<T>>(
    value: T,
    comparator: C,
    result: Result<(), ScalarComparisonFailure<T, C::Error>>,
)
    requires
        comparator.outcome(value, value) is Ok,
        is_scalar_comparison_result(value, value, comparator, result),
    ensures
        result is Ok,
{
}

} // verus!
