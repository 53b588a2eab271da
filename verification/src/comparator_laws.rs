//! What the stock comparators decide on the integers.

use crate::comparators::{
    AbsoluteElementwiseComparator, AbsoluteError, ElementwiseComparator,
    ExactElementwiseComparator, ExactError,
};
use crate::access::MatrixView;
use crate::comparison_failure::MatrixComparisonFailureView;
use crate::comparison_spec::is_comparison_result;
use crate::matrix_comparison::is_additive_identity;
use vstd::prelude::*;
use vstd::std_specs::ops::AddSpec;

verus! {

/// The additive identity of `i64` is the number zero, and nothing else.
pub proof fn additive_identity_of_i64(zero: i64)
    ensures
        is_additive_identity(zero) <==> zero == 0,
{
    if is_additive_identity(zero) {
        assert(0i64.add_req(zero));
        assert(0i64.add_spec(zero) == 0i64);
    }
}

/// An outcome of comparing two matrices of `i64` under an additive identity
/// for zero is the outcome under the number zero.
pub proof fn outcome_on_i64_is_that_under_zero<C: ElementwiseComparator<i64>>(
    left: MatrixView<i64>,
    right: MatrixView<i64>,
    comparator: C,
    result: Result<(), MatrixComparisonFailureView<i64, C::Error>>,
)
    requires
        exists|zero: i64|
            is_additive_identity(zero) && #[trigger] is_comparison_result(
                left,
                right,
                comparator,
                zero,
                result,
            ),
    ensures
        is_comparison_result(left, right, comparator, 0i64, result),
{
    let zero = choose|zero: i64|
        is_additive_identity(zero) && #[trigger] is_comparison_result(
            left,
            right,
            comparator,
            zero,
            result,
        );
    additive_identity_of_i64(zero);
}

/// The additive identity of `u64` is the number zero, and nothing else.
pub proof fn additive_identity_of_u64(zero: u64)
    ensures
        is_additive_identity(zero) <==> zero == 0,
{
    if is_additive_identity(zero) {
        assert(0u64.add_req(zero));
        assert(0u64.add_spec(zero) == 0u64);
    }
}

/// How far apart two integers are.
pub open spec fn gap(x: int, y: int) -> int {
    if x > y {
        x - y
    } else {
        y - x
    }
}

/// On `i64` the exact comparator can be asked about every pair, accepts the
/// pairs of equal numbers and rejects every other.
pub proof fn exact_verdict_on_i64(x: i64, y: i64)
    ensures
        ExactElementwiseComparator.comparable(x, y),
        ExactElementwiseComparator.outcome(x, y) == if x == y {
            Ok::<(), ExactError>(())
        } else {
            Err::<(), ExactError>(ExactError)
        },
{
}

/// On `i64` the absolute comparator can be asked about the pairs whose
/// distance is an `i64`, under a tolerance that is not negative. It accepts a
/// pair whose distance is at most the tolerance, and reports the distance of
/// every other.
pub proof fn absolute_verdict_on_i64(tol: i64, x: i64, y: i64)
    ensures
        (AbsoluteElementwiseComparator { tol }).comparable(x, y) <==> (0 <= tol && gap(
            x as int,
            y as int,
        ) <= i64::MAX),
        0 <= tol && gap(x as int, y as int) <= i64::MAX ==> (AbsoluteElementwiseComparator {
            tol,
        }).outcome(x, y) == if gap(x as int, y as int) <= tol {
            Ok::<(), AbsoluteError<i64>>(())
        } else {
            Err::<(), AbsoluteError<i64>>(AbsoluteError(gap(x as int, y as int) as i64))
        },
{
}

/// On `u64` the absolute comparator can be asked about every pair, under
/// every tolerance: the distance of two unsigned numbers is one.
pub proof fn absolute_verdict_on_u64(tol: u64, x: u64, y: u64)
    ensures
        (AbsoluteElementwiseComparator { tol }).comparable(x, y),
        (AbsoluteElementwiseComparator { tol }).outcome(x, y) == if gap(x as int, y as int)
            <= tol {
            Ok::<(), AbsoluteError<u64>>(())
        } else {
            Err::<(), AbsoluteError<u64>>(AbsoluteError(gap(x as int, y as int) as u64))
        },
{
}

/// The bound of the absolute comparator is inclusive: a number as far from
/// zero as the tolerance is accepted, the next number is rejected.
pub proof fn absolute_tolerance_is_inclusive_on_i64(tol: i64)
    requires
        0 <= tol < i64::MAX,
    ensures
        (AbsoluteElementwiseComparator { tol }).outcome(tol, 0) is Ok,
        (AbsoluteElementwiseComparator { tol }).outcome((tol + 1) as i64, 0) is Err,
{
    absolute_verdict_on_i64(tol, tol, 0);
    absolute_verdict_on_i64(tol, (tol + 1) as i64, 0);
}

/// On `i64` the verdict of the absolute comparator does not depend on the
/// order of the two numbers.
pub proof fn absolute_is_symmetric_on_i64(tol: i64, x: i64, y: i64)
    ensures
        (AbsoluteElementwiseComparator { tol }).outcome(x, y) == (AbsoluteElementwiseComparator {
            tol,
        }).outcome(y, x),
{
}

/// On `u64` the verdict of the absolute comparator does not depend on the
/// order of the two numbers.
pub proof fn absolute_is_symmetric_on_u64(tol: u64, x: u64, y: u64)
    ensures
        (AbsoluteElementwiseComparator { tol }).outcome(x, y) == (AbsoluteElementwiseComparator {
            tol,
        }).outcome(y, x),
{
}

/// The bound of the absolute comparator is inclusive on `u64` too.
pub proof fn absolute_tolerance_is_inclusive_on_u64(tol: u64)
    requires
        tol < u64::MAX,
    ensures
        (AbsoluteElementwiseComparator { tol }).outcome(tol, 0) is Ok,
        (AbsoluteElementwiseComparator { tol }).outcome((tol + 1) as u64, 0) is Err,
{
    absolute_verdict_on_u64(tol, tol, 0);
    absolute_verdict_on_u64(tol, (tol + 1) as u64, 0);
}

} // verus!
