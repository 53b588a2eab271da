//! What holds of every comparison of two matrices.

use crate::access::{has_entry, sparse_value, value_at, MatrixView};
use crate::comparators::{ElementwiseComparator, ExactElementwiseComparator, ExactError};
use crate::comparison_failure::{
    reverse_is_an_involution, reversed_result, DimensionMismatch, ElementsMismatchView,
    MatrixComparisonFailureView, MatrixElementComparisonFailure,
};
use crate::comparison_spec::{
    all_are_mismatches, has_violation, is_comparison_result, is_compared, is_elementwise_result,
    is_mismatch_at, is_row_major, is_violation_result, lists_mismatches, mismatch_at, precedes,
    reports, verdict_at, violation_failure,
};
use crate::sparse_map::{first_violation_is_unique, is_first_violation};
use vstd::prelude::*;
use vstd::std_specs::cmp::PartialEqSpec;

verus! {

/// Two matrices of different shapes compare to `MismatchedDimensions` with
/// the two shapes, whatever the comparator and whether the matrices are
/// dense or sparse.
pub proof fn different_shapes_give_dimension_mismatch<T, C: ElementwiseComparator<T>>(
    left: MatrixView<T>,
    right: MatrixView<T>,
    comparator: C,
    zero: T,
    result: Result<(), MatrixComparisonFailureView<T, C::Error>>,
)
    requires
        left.shape() != right.shape(),
    ensures
        is_comparison_result(left, right, comparator, zero, result) <==> result == Err::<
            (),
            MatrixComparisonFailureView<T, C::Error>,
        >(
            MatrixComparisonFailureView::MismatchedDimensions(
                DimensionMismatch { dim_left: left.shape(), dim_right: right.shape() },
            ),
        ),
{
}

/// Two lists of all the mismatches of the same two matrices are the same list.
pub proof fn mismatch_list_is_unique<T, C: ElementwiseComparator<T>>(
    left: MatrixView<T>,
    right: MatrixView<T>,
    comparator: C,
    zero: T,
    first: Seq<MatrixElementComparisonFailure<T, C::Error>>,
    second: Seq<MatrixElementComparisonFailure<T, C::Error>>,
)
    requires
        lists_mismatches(left, right, comparator, zero, first),
        lists_mismatches(left, right, comparator, zero, second),
    ensures
        first == second,
{
    same_lists_up_to(left, right, comparator, zero, first, second, first.len() as int);
    same_lists_up_to(left, right, comparator, zero, second, first, second.len() as int);
    assert(first =~= second);
}

/// Of two lists of all the mismatches, the second is at least as long as
/// `n`, where the first is, and has the same first `n` items.
proof fn same_lists_up_to<T, C: ElementwiseComparator<T>>(
    left: MatrixView<T>,
    right: MatrixView<T>,
    comparator: C,
    zero: T,
    first: Seq<MatrixElementComparisonFailure<T, C::Error>>,
    second: Seq<MatrixElementComparisonFailure<T, C::Error>>,
    n: int,
)
    requires
        lists_mismatches(left, right, comparator, zero, first),
        lists_mismatches(left, right, comparator, zero, second),
        0 <= n <= first.len(),
    ensures
        n <= second.len(),
        forall|k: int| 0 <= k < n ==> first[k] == second[k],
    decreases n,
{
    if n > 0 {
        same_lists_up_to(left, right, comparator, zero, first, second, n - 1);
        let item = first[n - 1];
        assert(is_mismatch_at(left, right, comparator, zero, item.row, item.col));
        let at = choose|at: int|
            0 <= at < second.len() && (#[trigger] second[at]).row == item.row && second[at].col
                == item.col;
        assert(second[at] == item);
        // The item cannot stand among the first n - 1 of the second list,
        // which are those of the first list and come before it.
        if at < n - 1 {
            assert(first[at] == second[at]);
            assert(precedes(first[at].coordinate(), first[n - 1].coordinate()));
        }
        // Nor can it stand later than n - 1: what stands at n - 1 in the
        // second list is a mismatch that the first list holds too.
        if at > n - 1 {
            let other = second[n - 1];
            assert(is_mismatch_at(left, right, comparator, zero, other.row, other.col));
            let back = choose|back: int|
                0 <= back < first.len() && (#[trigger] first[back]).row == other.row
                    && first[back].col == other.col;
            assert(first[back] == other);
            assert(precedes(second[n - 1].coordinate(), second[at].coordinate()));
            if back < n - 1 {
                assert(first[back] == second[back]);
                assert(precedes(second[back].coordinate(), second[n - 1].coordinate()));
            } else if back > n - 1 {
                assert(precedes(first[n - 1].coordinate(), first[back].coordinate()));
            }
        }
    }
}

/// The comparison has one outcome: two outcomes for the same matrices,
/// comparator and zero are the same but for the words in which the
/// comparator describes itself.
pub proof fn comparison_result_is_determined<T, C: ElementwiseComparator<T>>(
    left: MatrixView<T>,
    right: MatrixView<T>,
    comparator: C,
    zero: T,
    first: Result<(), MatrixComparisonFailureView<T, C::Error>>,
    second: Result<(), MatrixComparisonFailureView<T, C::Error>>,
)
    requires
        is_comparison_result(left, right, comparator, zero, first),
        is_comparison_result(left, right, comparator, zero, second),
    ensures
        match (first, second) {
            (
                Err(MatrixComparisonFailureView::MismatchedElements(a)),
                Err(MatrixComparisonFailureView::MismatchedElements(b)),
            ) => a.mismatches == b.mismatches,
            _ => first == second,
        },
{
    if left.shape() != right.shape() {
    } else if has_violation(left) {
        violation_result_is_determined(left, true, first, second);
    } else if has_violation(right) {
        violation_result_is_determined(right, false, first, second);
    } else {
        assert(is_elementwise_result(left, right, comparator, zero, first));
        assert(is_elementwise_result(left, right, comparator, zero, second));
        let a = listed(first);
        let b = listed(second);
        mismatch_list_is_unique(left, right, comparator, zero, a, b);
        match (first, second) {
            (Ok(u), Ok(v)) => {
                assert(u == v);
            },
            (Ok(_), Err(MatrixComparisonFailureView::MismatchedElements(e))) => {
                assert(e.mismatches.len() > 0);
            },
            (Err(MatrixComparisonFailureView::MismatchedElements(e)), Ok(_)) => {
                assert(e.mismatches.len() > 0);
            },
            _ => {},
        }
    }
}

/// The mismatches that an outcome lists: none where it is no list of mismatches.
pub open spec fn listed<T, E>(result: Result<(), MatrixComparisonFailureView<T, E>>) -> Seq<
    MatrixElementComparisonFailure<T, E>,
> {
    match result {
        Err(MatrixComparisonFailureView::MismatchedElements(elements)) => elements.mismatches,
        _ => Seq::empty(),
    }
}

proof fn violation_result_is_determined<T, E>(
    matrix: MatrixView<T>,
    on_left: bool,
    first: Result<(), MatrixComparisonFailureView<T, E>>,
    second: Result<(), MatrixComparisonFailureView<T, E>>,
)
    requires
        is_violation_result(matrix, on_left, first),
        is_violation_result(matrix, on_left, second),
    ensures
        first == second,
        !(first matches Err(MatrixComparisonFailureView::MismatchedElements(_))),
{
    let triplets = matrix->Sparse_triplets;
    let a = choose|k: int|
        #![trigger is_first_violation(triplets, matrix.rows(), matrix.cols(), k)]
        is_first_violation(triplets, matrix.rows(), matrix.cols(), k) && first == Err::<
            (),
            MatrixComparisonFailureView<T, E>,
        >(violation_failure(triplets, matrix.rows(), matrix.cols(), k, on_left));
    let b = choose|k: int|
        #![trigger is_first_violation(triplets, matrix.rows(), matrix.cols(), k)]
        is_first_violation(triplets, matrix.rows(), matrix.cols(), k) && second == Err::<
            (),
            MatrixComparisonFailureView<T, E>,
        >(violation_failure(triplets, matrix.rows(), matrix.cols(), k, on_left));
    first_violation_is_unique(triplets, matrix.rows(), matrix.cols(), a, b);
}

/// A matrix whose triplets, if it is sparse, are in order compares equal to
/// itself under every comparator that accepts a value paired with itself.
pub proof fn matrix_matches_itself<T, C: ElementwiseComparator<T>>(
    matrix: MatrixView<T>,
    comparator: C,
    zero: T,
    result: Result<(), MatrixComparisonFailureView<T, C::Error>>,
)
    requires
        !has_violation(matrix),
        forall|x: T| #[trigger] comparator.outcome(x, x) is Ok,
    ensures
        is_comparison_result(matrix, matrix, comparator, zero, result) <==> result == Ok::<
            (),
            MatrixComparisonFailureView<T, C::Error>,
        >(()),
{
    assert forall|row: usize, col: usize|
        !is_mismatch_at(matrix, matrix, comparator, zero, row, col) by {
        let x = value_at(matrix, row, col, zero);
        assert(comparator.outcome(x, x) is Ok);
    }
    let none = Seq::<MatrixElementComparisonFailure<T, C::Error>>::empty();
    assert(lists_mismatches(matrix, matrix, comparator, zero, none));
    let success = Ok::<(), MatrixComparisonFailureView<T, C::Error>>(());
    assert(is_elementwise_result(matrix, matrix, comparator, zero, success));
    assert(is_comparison_result(matrix, matrix, comparator, zero, success));
    if is_comparison_result(matrix, matrix, comparator, zero, result) {
        assert(is_elementwise_result(matrix, matrix, comparator, zero, result));
        match result {
            Err(MatrixComparisonFailureView::MismatchedElements(elements)) => {
                let item = elements.mismatches[0];
                assert(is_mismatch_at(matrix, matrix, comparator, zero, item.row, item.col));
            },
            Err(_) => {},
            Ok(unit) => {
                assert(unit == ());
            },
        }
    }
}

/// A matrix whose triplets, if it is sparse, are in order compares equal to
/// itself under the exact comparator, where every element is equal to itself.
pub proof fn matrix_matches_itself_exactly<T: PartialEq>(
    matrix: MatrixView<T>,
    zero: T,
    result: Result<(), MatrixComparisonFailureView<T, ExactError>>,
)
    requires
        !has_violation(matrix),
        forall|x: T| #[trigger] x.eq_spec(&x),
    ensures
        is_comparison_result(matrix, matrix, ExactElementwiseComparator, zero, result) <==> result
            == Ok::<(), MatrixComparisonFailureView<T, ExactError>>(()),
{
    assert forall|x: T| #[trigger] ExactElementwiseComparator.outcome(x, x) is Ok by {
        assert(x.eq_spec(&x));
    }
    matrix_matches_itself(matrix, ExactElementwiseComparator, zero, result);
}

/// Whether `dense` is the dense form of `sparse`: of the same shape, with
/// the value of the triplet at every position where there is one, and
/// `zero` at every other.
pub open spec fn is_dense_form<T>(dense: MatrixView<T>, sparse: MatrixView<T>, zero: T) -> bool {
    &&& dense is Dense
    &&& sparse is Sparse
    &&& dense.shape() == sparse.shape()
    &&& forall|row: usize, col: usize|
        dense.in_bounds(row, col) ==> #[trigger] (dense->Dense_cells)(row, col) == sparse_value(
            sparse->Sparse_triplets,
            row,
            col,
            zero,
        )
}

/// The positions and reports of mismatches are the same against a sparse
/// matrix on the right and against its dense form.
proof fn same_mismatches_against_dense_form<T, C: ElementwiseComparator<T>>(
    other: MatrixView<T>,
    sparse: MatrixView<T>,
    dense: MatrixView<T>,
    comparator: C,
    zero: T,
    sparse_on_left: bool,
)
    requires
        is_dense_form(dense, sparse, zero),
        other.shape() == sparse.shape(),
        other is Sparse ==> comparator.outcome(zero, zero) is Ok,
    ensures
        forall|row: usize, col: usize|
            #![trigger is_mismatch_at(operand(other, sparse, sparse_on_left, true), operand(other, sparse, sparse_on_left, false), comparator, zero, row, col)]
            #![trigger is_mismatch_at(operand(other, dense, sparse_on_left, true), operand(other, dense, sparse_on_left, false), comparator, zero, row, col)]
            {
                &&& is_mismatch_at(
                    operand(other, sparse, sparse_on_left, true),
                    operand(other, sparse, sparse_on_left, false),
                    comparator,
                    zero,
                    row,
                    col,
                ) == is_mismatch_at(
                    operand(other, dense, sparse_on_left, true),
                    operand(other, dense, sparse_on_left, false),
                    comparator,
                    zero,
                    row,
                    col,
                )
                &&& other.in_bounds(row, col) ==> mismatch_at(
                    operand(other, sparse, sparse_on_left, true),
                    operand(other, sparse, sparse_on_left, false),
                    comparator,
                    zero,
                    row,
                    col,
                ) == mismatch_at(
                    operand(other, dense, sparse_on_left, true),
                    operand(other, dense, sparse_on_left, false),
                    comparator,
                    zero,
                    row,
                    col,
                )
            },
{
    let ls = operand(other, sparse, sparse_on_left, true);
    let rs = operand(other, sparse, sparse_on_left, false);
    let ld = operand(other, dense, sparse_on_left, true);
    let rd = operand(other, dense, sparse_on_left, false);
    assert forall|row: usize, col: usize|
        #![trigger is_mismatch_at(ls, rs, comparator, zero, row, col)]
        #![trigger is_mismatch_at(ld, rd, comparator, zero, row, col)]
        {
            &&& is_mismatch_at(ls, rs, comparator, zero, row, col) == is_mismatch_at(
                ld,
                rd,
                comparator,
                zero,
                row,
                col,
            )
            &&& other.in_bounds(row, col) ==> mismatch_at(ls, rs, comparator, zero, row, col)
                == mismatch_at(ld, rd, comparator, zero, row, col)
        } by {
        if other.in_bounds(row, col) {
            assert(dense.in_bounds(row, col));
            assert((dense->Dense_cells)(row, col) == sparse_value(
                sparse->Sparse_triplets,
                row,
                col,
                zero,
            ));
            assert(value_at(dense, row, col, zero) == value_at(sparse, row, col, zero));
            assert(verdict_at(ls, rs, comparator, zero, row, col) == verdict_at(
                ld,
                rd,
                comparator,
                zero,
                row,
                col,
            ));
            if other is Sparse && !is_compared(ls, rs, row, col) {
                assert(!has_entry(other->Sparse_triplets, row, col));
                assert(!has_entry(sparse->Sparse_triplets, row, col));
                assert(value_at(other, row, col, zero) == zero);
                assert(value_at(sparse, row, col, zero) == zero);
            }
        }
    }
}

/// One of the two operands of a comparison of `other` with `matrix`: with
/// `matrix_on_left`, `matrix` is the left operand and `other` the right one.
pub open spec fn operand<T>(
    other: MatrixView<T>,
    matrix: MatrixView<T>,
    matrix_on_left: bool,
    left: bool,
) -> MatrixView<T> {
    if matrix_on_left == left {
        matrix
    } else {
        other
    }
}

/// A sparse matrix whose triplets are in order compares as its dense form
/// does: against any matrix, on either side, and under any comparator, the
/// outcomes are the same. Where the other matrix is sparse too, this asks
/// that the comparator accepts two zeros, as only then do the positions
/// count for nothing that neither matrix has a triplet for.
pub proof fn sparse_compares_as_its_dense_form<T, C: ElementwiseComparator<T>>(
    other: MatrixView<T>,
    sparse: MatrixView<T>,
    dense: MatrixView<T>,
    comparator: C,
    zero: T,
    sparse_on_left: bool,
    result: Result<(), MatrixComparisonFailureView<T, C::Error>>,
)
    requires
        is_dense_form(dense, sparse, zero),
        !has_violation(sparse),
        other is Sparse ==> comparator.outcome(zero, zero) is Ok,
    ensures
        is_comparison_result(
            operand(other, sparse, sparse_on_left, true),
            operand(other, sparse, sparse_on_left, false),
            comparator,
            zero,
            result,
        ) <==> is_comparison_result(
            operand(other, dense, sparse_on_left, true),
            operand(other, dense, sparse_on_left, false),
            comparator,
            zero,
            result,
        ),
{
    let ls = operand(other, sparse, sparse_on_left, true);
    let rs = operand(other, sparse, sparse_on_left, false);
    let ld = operand(other, dense, sparse_on_left, true);
    let rd = operand(other, dense, sparse_on_left, false);
    if other.shape() == sparse.shape() && !has_violation(other) {
        same_mismatches_against_dense_form(other, sparse, dense, comparator, zero, sparse_on_left);
        let items = listed(result);
        if lists_mismatches(ls, rs, comparator, zero, items) {
            assert forall|k: int| 0 <= k < items.len() implies {
                &&& is_mismatch_at(ld, rd, comparator, zero, (#[trigger] items[k]).row, items[k].col)
                &&& items[k] == mismatch_at(ld, rd, comparator, zero, items[k].row, items[k].col)
            } by {
                assert(is_mismatch_at(ls, rs, comparator, zero, items[k].row, items[k].col));
            }
            assert forall|row: usize, col: usize| #[trigger]
                is_mismatch_at(ld, rd, comparator, zero, row, col) implies reports(
                items,
                row,
                col,
            ) by {
                assert(is_mismatch_at(ls, rs, comparator, zero, row, col));
            }
            assert(lists_mismatches(ld, rd, comparator, zero, items));
        }
        if lists_mismatches(ld, rd, comparator, zero, items) {
            assert forall|k: int| 0 <= k < items.len() implies {
                &&& is_mismatch_at(ls, rs, comparator, zero, (#[trigger] items[k]).row, items[k].col)
                &&& items[k] == mismatch_at(ls, rs, comparator, zero, items[k].row, items[k].col)
            } by {
                assert(is_mismatch_at(ld, rd, comparator, zero, items[k].row, items[k].col));
            }
            assert forall|row: usize, col: usize| #[trigger]
                is_mismatch_at(ls, rs, comparator, zero, row, col) implies reports(
                items,
                row,
                col,
            ) by {
                assert(is_mismatch_at(ld, rd, comparator, zero, row, col));
            }
            assert(lists_mismatches(ls, rs, comparator, zero, items));
        }
    }
}

/// The mismatches of an outcome come by `(row, col)` ascending, each
/// position once: row by row between a dense matrix and any other, and no
/// less so between two sparse matrices, whatever the order of their triplets.
pub proof fn mismatches_come_in_row_major_order<T, C: ElementwiseComparator<T>>(
    left: MatrixView<T>,
    right: MatrixView<T>,
    comparator: C,
    zero: T,
    elements: ElementsMismatchView<T, C::Error>,
)
    requires
        is_comparison_result(
            left,
            right,
            comparator,
            zero,
            Err(MatrixComparisonFailureView::MismatchedElements(elements)),
        ),
    ensures
        forall|a: int, b: int|
            0 <= a < b < elements.mismatches.len() ==> precedes(
                (#[trigger] elements.mismatches[a]).coordinate(),
                (#[trigger] elements.mismatches[b]).coordinate(),
            ),
{
    let result = Err::<(), MatrixComparisonFailureView<T, C::Error>>(
        MatrixComparisonFailureView::MismatchedElements(elements),
    );
    if left.shape() != right.shape() {
    } else if has_violation(left) {
        violation_result_is_determined(left, true, result, result);
    } else if has_violation(right) {
        violation_result_is_determined(right, false, result, result);
    } else {
        assert(is_row_major(elements.mismatches));
    }
}

/// With the operands interchanged, an outcome becomes the outcome with the
/// roles of left and right interchanged.
proof fn swapped_operands_give_reversed_result<T, C: ElementwiseComparator<T>>(
    left: MatrixView<T>,
    right: MatrixView<T>,
    comparator: C,
    zero: T,
    result: Result<(), MatrixComparisonFailureView<T, C::Error>>,
)
    requires
        forall|x: T, y: T| #[trigger] comparator.outcome(x, y) == comparator.outcome(y, x),
        !(has_violation(left) && has_violation(right)),
        is_comparison_result(left, right, comparator, zero, result),
    ensures
        is_comparison_result(right, left, comparator, zero, reversed_result(result)),
{
    let turned = reversed_result(result);
    if left.shape() != right.shape() {
    } else if has_violation(left) {
        let triplets = left->Sparse_triplets;
        let k = choose|k: int|
            #![trigger is_first_violation(triplets, left.rows(), left.cols(), k)]
            is_first_violation(triplets, left.rows(), left.cols(), k) && result == Err::<
                (),
                MatrixComparisonFailureView<T, C::Error>,
            >(violation_failure(triplets, left.rows(), left.cols(), k, true));
        assert(turned == Err::<(), MatrixComparisonFailureView<T, C::Error>>(
            violation_failure(triplets, left.rows(), left.cols(), k, false),
        ));
        assert(is_violation_result(left, false, turned));
    } else if has_violation(right) {
        let triplets = right->Sparse_triplets;
        let k = choose|k: int|
            #![trigger is_first_violation(triplets, right.rows(), right.cols(), k)]
            is_first_violation(triplets, right.rows(), right.cols(), k) && result == Err::<
                (),
                MatrixComparisonFailureView<T, C::Error>,
            >(violation_failure(triplets, right.rows(), right.cols(), k, false));
        assert(turned == Err::<(), MatrixComparisonFailureView<T, C::Error>>(
            violation_failure(triplets, right.rows(), right.cols(), k, true),
        ));
        assert(is_violation_result(right, true, turned));
    } else {
        let items = listed(result);
        let turned_items = listed(turned);
        assert(turned_items.len() == items.len());
        assert forall|k: int| 0 <= k < items.len() implies turned_items[k]
            == (#[trigger] items[k]).reversed() by {}
        assert forall|row: usize, col: usize|
            is_mismatch_at(left, right, comparator, zero, row, col) == is_mismatch_at(
                right,
                left,
                comparator,
                zero,
                row,
                col,
            ) && mismatch_at(left, right, comparator, zero, row, col).reversed() == mismatch_at(
                right,
                left,
                comparator,
                zero,
                row,
                col,
            ) by {
            let x = value_at(left, row, col, zero);
            let y = value_at(right, row, col, zero);
            assert(comparator.outcome(x, y) == comparator.outcome(y, x));
        }
        assert forall|k: int| 0 <= k < turned_items.len() implies {
            &&& is_mismatch_at(
                right,
                left,
                comparator,
                zero,
                (#[trigger] turned_items[k]).row,
                turned_items[k].col,
            )
            &&& turned_items[k] == mismatch_at(
                right,
                left,
                comparator,
                zero,
                turned_items[k].row,
                turned_items[k].col,
            )
        } by {
            assert(turned_items[k] == items[k].reversed());
            assert(is_mismatch_at(left, right, comparator, zero, items[k].row, items[k].col));
        }
        assert forall|a: int, b: int| 0 <= a < b < turned_items.len() implies precedes(
            (#[trigger] turned_items[a]).coordinate(),
            (#[trigger] turned_items[b]).coordinate(),
        ) by {
            assert(turned_items[a] == items[a].reversed());
            assert(turned_items[b] == items[b].reversed());
            assert(precedes(items[a].coordinate(), items[b].coordinate()));
        }
        assert forall|row: usize, col: usize| #[trigger]
            is_mismatch_at(right, left, comparator, zero, row, col) implies reports(
            turned_items,
            row,
            col,
        ) by {
            assert(is_mismatch_at(left, right, comparator, zero, row, col));
            let k = choose|k: int|
                0 <= k < items.len() && (#[trigger] items[k]).row == row && items[k].col == col;
            assert(turned_items[k] == items[k].reversed());
        }
        assert(all_are_mismatches(right, left, comparator, zero, turned_items));
        assert(lists_mismatches(right, left, comparator, zero, turned_items));
        assert(is_elementwise_result(right, left, comparator, zero, turned));
    }
}

/// Comparison is symmetric: under a comparator whose verdict on a pair does
/// not depend on the order of the two, the outcomes of comparing `right` with
/// `left` are those of comparing `left` with `right` with the roles of left
/// and right interchanged, in the shapes, in every mismatch and in the side
/// of a sparse entry. This is stated of operands of which at most one has
/// triplets out of order: of two such operands the one on the left is
/// reported, whichever that is.
pub proof fn comparison_is_symmetric<T, C: ElementwiseComparator<T>>(
    left: MatrixView<T>,
    right: MatrixView<T>,
    comparator: C,
    zero: T,
    result: Result<(), MatrixComparisonFailureView<T, C::Error>>,
)
    requires
        forall|x: T, y: T| #[trigger] comparator.outcome(x, y) == comparator.outcome(y, x),
        !(has_violation(left) && has_violation(right)),
    ensures
        is_comparison_result(left, right, comparator, zero, result) <==> is_comparison_result(
            right,
            left,
            comparator,
            zero,
            reversed_result(result),
        ),
{
    if is_comparison_result(left, right, comparator, zero, result) {
        swapped_operands_give_reversed_result(left, right, comparator, zero, result);
    }
    if is_comparison_result(right, left, comparator, zero, reversed_result(result)) {
        swapped_operands_give_reversed_result(
            right,
            left,
            comparator,
            zero,
            reversed_result(result),
        );
        match result {
            Err(failure) => {
                reverse_is_an_involution(failure);
                assert(reversed_result(result) == Err::<
                    (),
                    MatrixComparisonFailureView<T, C::Error>,
                >(failure.reversed()));
            },
            Ok(unit) => {
                assert(unit == ());
            },
        }
        assert(reversed_result(reversed_result(result)) == result);
    }
}

} // verus!
