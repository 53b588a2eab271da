//! What the outcome of comparing two matrices is, as a relation between the
//! two matrices, the comparator, the value that stands for zero, and the
//! outcome.
//!
//! Matrices of different shapes give the two shapes. Otherwise the triplets
//! of the left matrix, if it is sparse, must be in order, then those of the
//! right one; the first violation found is the outcome. Otherwise the
//! elements are compared, and the outcome lists every position at which the
//! comparator rejects the pair, row by row.
//!
//! Two sparse matrices are compared only at the positions where one of them
//! has a triplet. In every other case all positions of the shape are compared.

use crate::access::{has_entry, value_at, DenseAccess, MatrixView, SparseAccess};
use crate::comparators::ElementwiseComparator;
use crate::comparison_failure::{
    Coordinate, DimensionMismatch, Entry, MatrixComparisonFailureView,
    MatrixElementComparisonFailure,
};
use crate::sparse_map::{is_first_violation, out_of_bounds_at, well_formed};
use vstd::prelude::*;

verus! {

/// The dense matrix that `dense` gives access to.
pub open spec fn dense_view<T, D: DenseAccess<T> + ?Sized>(dense: &D) -> MatrixView<T> {
    MatrixView::Dense {
        rows: dense.shape().0,
        cols: dense.shape().1,
        cells: |row: usize, col: usize| dense.cell(row, col),
    }
}

/// The sparse matrix of the given shape that `sparse` gives access to.
pub open spec fn sparse_view<T, S: SparseAccess<T> + ?Sized>(
    sparse: &S,
    rows: usize,
    cols: usize,
) -> MatrixView<T> {
    MatrixView::Sparse { rows, cols, triplets: sparse.triplets() }
}

/// Whether `a` comes before `b`, going through the positions row by row.
pub open spec fn precedes(a: Coordinate, b: Coordinate) -> bool {
    a.0 < b.0 || (a.0 == b.0 && a.1 < b.1)
}

/// Whether the comparison of `left` and `right` looks at `(row, col)`.
pub open spec fn is_compared<T>(
    left: MatrixView<T>,
    right: MatrixView<T>,
    row: usize,
    col: usize,
) -> bool {
    &&& left.in_bounds(row, col)
    &&& (left is Sparse && right is Sparse) ==> (has_entry(left->Sparse_triplets, row, col)
        || has_entry(right->Sparse_triplets, row, col))
}

/// The verdict of the comparator on the two elements at `(row, col)`.
pub open spec fn verdict_at<T, C: ElementwiseComparator<T>>(
    left: MatrixView<T>,
    right: MatrixView<T>,
    comparator: C,
    zero: T,
    row: usize,
    col: usize,
) -> Result<(), C::Error> {
    comparator.outcome(value_at(left, row, col, zero), value_at(right, row, col, zero))
}

/// Whether `(row, col)` is compared and the comparator rejects the pair there.
pub open spec fn is_mismatch_at<T, C: ElementwiseComparator<T>>(
    left: MatrixView<T>,
    right: MatrixView<T>,
    comparator: C,
    zero: T,
    row: usize,
    col: usize,
) -> bool {
    is_compared(left, right, row, col) && verdict_at(left, right, comparator, zero, row, col) is Err
}

/// What is reported of a mismatch at `(row, col)`: the two elements, and what
/// the comparator says of them.
pub open spec fn mismatch_at<T, C: ElementwiseComparator<T>>(
    left: MatrixView<T>,
    right: MatrixView<T>,
    comparator: C,
    zero: T,
    row: usize,
    col: usize,
) -> MatrixElementComparisonFailure<T, C::Error> {
    MatrixElementComparisonFailure {
        left: value_at(left, row, col, zero),
        right: value_at(right, row, col, zero),
        error: verdict_at(left, right, comparator, zero, row, col)->Err_0,
        row,
        col,
    }
}

/// Whether `mismatches` has an item for `(row, col)`.
pub open spec fn reports<T, E>(
    mismatches: Seq<MatrixElementComparisonFailure<T, E>>,
    row: usize,
    col: usize,
) -> bool {
    exists|k: int|
        0 <= k < mismatches.len() && (#[trigger] mismatches[k]).row == row && mismatches[k].col
            == col
}

/// Whether every item of `mismatches` is a mismatch, reported as it is.
pub open spec fn all_are_mismatches<T, C: ElementwiseComparator<T>>(
    left: MatrixView<T>,
    right: MatrixView<T>,
    comparator: C,
    zero: T,
    mismatches: Seq<MatrixElementComparisonFailure<T, C::Error>>,
) -> bool {
    forall|k: int|
        0 <= k < mismatches.len() ==> {
            &&& is_mismatch_at(
                left,
                right,
                comparator,
                zero,
                (#[trigger] mismatches[k]).row,
                mismatches[k].col,
            )
            &&& mismatches[k] == mismatch_at(
                left,
                right,
                comparator,
                zero,
                mismatches[k].row,
                mismatches[k].col,
            )
        }
}

/// Whether the items come row by row, each position after the one before it.
pub open spec fn is_row_major<T, E>(mismatches: Seq<MatrixElementComparisonFailure<T, E>>) -> bool {
    forall|a: int, b: int|
        0 <= a < b < mismatches.len() ==> precedes(
            (#[trigger] mismatches[a]).coordinate(),
            (#[trigger] mismatches[b]).coordinate(),
        )
}

/// Whether `mismatches` is the list of all mismatches of `left` and `right`:
/// each item a mismatch, none left out, in row-major order.
pub open spec fn lists_mismatches<T, C: ElementwiseComparator<T>>(
    left: MatrixView<T>,
    right: MatrixView<T>,
    comparator: C,
    zero: T,
    mismatches: Seq<MatrixElementComparisonFailure<T, C::Error>>,
) -> bool {
    &&& all_are_mismatches(left, right, comparator, zero, mismatches)
    &&& is_row_major(mismatches)
    &&& forall|row: usize, col: usize| #[trigger]
        is_mismatch_at(left, right, comparator, zero, row, col) ==> reports(mismatches, row, col)
}

/// Whether the matrix is sparse and its triplets are not in order.
pub open spec fn has_violation<T>(matrix: MatrixView<T>) -> bool {
    matrix is Sparse && !well_formed(matrix->Sparse_triplets, matrix.rows(), matrix.cols())
}

/// The failure that a violation by the triplet of index `k` gives, tagged
/// with the side of the matrix the triplet is in.
pub open spec fn violation_failure<T, E>(
    triplets: Seq<(usize, usize, T)>,
    rows: usize,
    cols: usize,
    k: int,
    on_left: bool,
) -> MatrixComparisonFailureView<T, E> {
    let coord = (triplets[k].0, triplets[k].1);
    let entry = if on_left {
        Entry::Left(coord)
    } else {
        Entry::Right(coord)
    };
    if out_of_bounds_at(triplets, rows, cols, k) {
        MatrixComparisonFailureView::SparseEntryOutOfBounds(entry)
    } else {
        MatrixComparisonFailureView::DuplicateSparseEntry(entry)
    }
}

/// Whether `result` is the outcome for a sparse matrix on the given side
/// whose triplets are not in order: its first violation.
pub open spec fn is_violation_result<T, E>(
    matrix: MatrixView<T>,
    on_left: bool,
    result: Result<(), MatrixComparisonFailureView<T, E>>,
) -> bool {
    exists|k: int|
        #![trigger is_first_violation(matrix->Sparse_triplets, matrix.rows(), matrix.cols(), k)]
        is_first_violation(matrix->Sparse_triplets, matrix.rows(), matrix.cols(), k) && result
            == Err::<(), MatrixComparisonFailureView<T, E>>(
            violation_failure(matrix->Sparse_triplets, matrix.rows(), matrix.cols(), k, on_left),
        )
}

/// Whether `result` is the outcome of comparing the elements of two matrices
/// of one shape: success where no pair is rejected, else all the mismatches
/// under a description of the comparator.
pub open spec fn is_elementwise_result<T, C: ElementwiseComparator<T>>(
    left: MatrixView<T>,
    right: MatrixView<T>,
    comparator: C,
    zero: T,
    result: Result<(), MatrixComparisonFailureView<T, C::Error>>,
) -> bool {
    match result {
        Ok(()) => lists_mismatches(left, right, comparator, zero, Seq::empty()),
        Err(MatrixComparisonFailureView::MismatchedElements(elements)) => {
            &&& elements.mismatches.len() > 0
            &&& comparator.describes(elements.comparator_description)
            &&& lists_mismatches(left, right, comparator, zero, elements.mismatches)
        },
        Err(_) => false,
    }
}

/// Whether `result` is the outcome of comparing `left` with `right` by
/// `comparator`, where `zero` is the value of a position without a triplet.
pub open spec fn is_comparison_result<T, C: ElementwiseComparator<T>>(
    left: MatrixView<T>,
    right: MatrixView<T>,
    comparator: C,
    zero: T,
    result: Result<(), MatrixComparisonFailureView<T, C::Error>>,
) -> bool {
    if left.shape() != right.shape() {
        result == Err::<(), MatrixComparisonFailureView<T, C::Error>>(
            MatrixComparisonFailureView::MismatchedDimensions(
                DimensionMismatch { dim_left: left.shape(), dim_right: right.shape() },
            ),
        )
    } else if has_violation(left) {
        is_violation_result(left, true, result)
    } else if has_violation(right) {
        is_violation_result(right, false, result)
    } else {
        is_elementwise_result(left, right, comparator, zero, result)
    }
}

/// Whether the comparator can be asked about every pair of elements that the
/// comparison of `left` and `right` looks at. It looks at none where the
/// shapes differ or the triplets of a sparse operand are not in order.
pub open spec fn comparable_throughout<T, C: ElementwiseComparator<T>>(
    left: MatrixView<T>,
    right: MatrixView<T>,
    comparator: C,
    zero: T,
) -> bool {
    left.shape() == right.shape() && !has_violation(left) && !has_violation(right) ==> forall|
        row: usize,
        col: usize,
    | #[trigger]
        is_compared(left, right, row, col) ==> comparator.comparable(
            value_at(left, row, col, zero),
            value_at(right, row, col, zero),
        )
}

/// Whether `mismatches` lists the mismatches at the positions before
/// `(row, col)`, and only those.
pub open spec fn lists_mismatches_before<T, C: ElementwiseComparator<T>>(
    left: MatrixView<T>,
    right: MatrixView<T>,
    comparator: C,
    zero: T,
    mismatches: Seq<MatrixElementComparisonFailure<T, C::Error>>,
    row: int,
    col: int,
) -> bool {
    &&& all_are_mismatches(left, right, comparator, zero, mismatches)
    &&& is_row_major(mismatches)
    &&& forall|k: int|
        0 <= k < mismatches.len() ==> is_before((#[trigger] mismatches[k]).coordinate(), row, col)
    &&& forall|i: usize, j: usize|
        #[trigger] is_mismatch_at(left, right, comparator, zero, i, j) && is_before(
            (i, j),
            row,
            col,
        ) ==> reports(mismatches, i, j)
}

/// Whether `coord` comes before the position `(row, col)`.
pub open spec fn is_before(coord: Coordinate, row: int, col: int) -> bool {
    coord.0 < row || (coord.0 == row && coord.1 < col)
}

/// Before the first position there is nothing to list.
pub proof fn nothing_listed_at_start<T, C: ElementwiseComparator<T>>(
    left: MatrixView<T>,
    right: MatrixView<T>,
    comparator: C,
    zero: T,
)
    ensures
        lists_mismatches_before(
            left,
            right,
            comparator,
            zero,
            Seq::<MatrixElementComparisonFailure<T, C::Error>>::empty(),
            0,
            0,
        ),
{
}

/// A mismatch at `(row, col)` is added to the list of those before it.
pub proof fn mismatch_extends_list<T, C: ElementwiseComparator<T>>(
    left: MatrixView<T>,
    right: MatrixView<T>,
    comparator: C,
    zero: T,
    mismatches: Seq<MatrixElementComparisonFailure<T, C::Error>>,
    row: usize,
    col: usize,
)
    requires
        lists_mismatches_before(left, right, comparator, zero, mismatches, row as int, col as int),
        is_mismatch_at(left, right, comparator, zero, row, col),
    ensures
        lists_mismatches_before(
            left,
            right,
            comparator,
            zero,
            mismatches.push(mismatch_at(left, right, comparator, zero, row, col)),
            row as int,
            col + 1,
        ),
{
    let item = mismatch_at(left, right, comparator, zero, row, col);
    let longer = mismatches.push(item);
    assert forall|k: int| 0 <= k < longer.len() implies {
        &&& is_mismatch_at(left, right, comparator, zero, (#[trigger] longer[k]).row, longer[k].col)
        &&& longer[k] == mismatch_at(left, right, comparator, zero, longer[k].row, longer[k].col)
        &&& is_before(longer[k].coordinate(), row as int, col + 1)
    } by {
        if k < mismatches.len() {
            assert(longer[k] == mismatches[k]);
        }
    }
    assert forall|a: int, b: int| 0 <= a < b < longer.len() implies precedes(
        (#[trigger] longer[a]).coordinate(),
        (#[trigger] longer[b]).coordinate(),
    ) by {
        assert(longer[a] == mismatches[a]);
        if b < mismatches.len() {
            assert(longer[b] == mismatches[b]);
        }
    }
    assert forall|i: usize, j: usize|
        #[trigger] is_mismatch_at(left, right, comparator, zero, i, j) && is_before(
            (i, j),
            row as int,
            col + 1,
        ) implies reports(longer, i, j) by {
        if is_before((i, j), row as int, col as int) {
            let k = choose|k: int|
                0 <= k < mismatches.len() && (#[trigger] mismatches[k]).row == i && mismatches[k].col
                    == j;
            assert(longer[k] == mismatches[k]);
        } else {
            assert(longer[mismatches.len() as int] == item);
        }
    }
}

/// A position without a mismatch leaves the list as it is.
pub proof fn match_keeps_list<T, C: ElementwiseComparator<T>>(
    left: MatrixView<T>,
    right: MatrixView<T>,
    comparator: C,
    zero: T,
    mismatches: Seq<MatrixElementComparisonFailure<T, C::Error>>,
    row: usize,
    col: usize,
)
    requires
        lists_mismatches_before(left, right, comparator, zero, mismatches, row as int, col as int),
        !is_mismatch_at(left, right, comparator, zero, row, col),
    ensures
        lists_mismatches_before(left, right, comparator, zero, mismatches, row as int, col + 1),
{
}

/// At the end of a row the list is that of the positions before the next row.
pub proof fn row_end_is_next_row_start<T, C: ElementwiseComparator<T>>(
    left: MatrixView<T>,
    right: MatrixView<T>,
    comparator: C,
    zero: T,
    mismatches: Seq<MatrixElementComparisonFailure<T, C::Error>>,
    row: usize,
)
    requires
        lists_mismatches_before(
            left,
            right,
            comparator,
            zero,
            mismatches,
            row as int,
            left.cols() as int,
        ),
    ensures
        lists_mismatches_before(left, right, comparator, zero, mismatches, row + 1, 0),
{
    assert forall|k: int| 0 <= k < mismatches.len() implies is_before(
        (#[trigger] mismatches[k]).coordinate(),
        row + 1,
        0,
    ) by {
        assert(is_before(mismatches[k].coordinate(), row as int, left.cols() as int));
    }
}

/// After the last row the list is that of all the mismatches.
pub proof fn list_is_whole_after_last_row<T, C: ElementwiseComparator<T>>(
    left: MatrixView<T>,
    right: MatrixView<T>,
    comparator: C,
    zero: T,
    mismatches: Seq<MatrixElementComparisonFailure<T, C::Error>>,
)
    requires
        lists_mismatches_before(
            left,
            right,
            comparator,
            zero,
            mismatches,
            left.rows() as int,
            0,
        ),
    ensures
        lists_mismatches(left, right, comparator, zero, mismatches),
{
}

/// Whether two matrices are of one kind and one shape and hold the same: the
/// same element at every position of the shape, or the same triplets.
pub open spec fn agree<T>(a: MatrixView<T>, b: MatrixView<T>) -> bool {
    &&& a.shape() == b.shape()
    &&& a is Dense ==> b is Dense && forall|row: usize, col: usize|
        a.in_bounds(row, col) ==> #[trigger] (a->Dense_cells)(row, col) == (b->Dense_cells)(
            row,
            col,
        )
    &&& a is Sparse ==> b is Sparse && a->Sparse_triplets == b->Sparse_triplets
}

/// Matrices that hold the same compare alike: what is an outcome for the
/// ones is an outcome for the others.
pub proof fn agreeing_matrices_compare_alike<T, C: ElementwiseComparator<T>>(
    left: MatrixView<T>,
    right: MatrixView<T>,
    other_left: MatrixView<T>,
    other_right: MatrixView<T>,
    comparator: C,
    zero: T,
    result: Result<(), MatrixComparisonFailureView<T, C::Error>>,
)
    requires
        agree(left, other_left),
        agree(right, other_right),
        is_comparison_result(left, right, comparator, zero, result),
    ensures
        is_comparison_result(other_left, other_right, comparator, zero, result),
{
    if left.shape() == right.shape() && !has_violation(left) && !has_violation(right) {
        assert forall|row: usize, col: usize|
            is_compared(left, right, row, col) == is_compared(other_left, other_right, row, col)
            by {}
        assert forall|row: usize, col: usize|
            left.in_bounds(row, col) implies value_at(left, row, col, zero) == value_at(
            other_left,
            row,
            col,
            zero,
        ) && value_at(right, row, col, zero) == value_at(other_right, row, col, zero) by {
            if left is Dense {
                assert((left->Dense_cells)(row, col) == (other_left->Dense_cells)(row, col));
            }
            if right is Dense {
                assert(right.in_bounds(row, col));
                assert((right->Dense_cells)(row, col) == (other_right->Dense_cells)(row, col));
            }
        }
        let listed = match result {
            Ok(()) => Seq::empty(),
            Err(MatrixComparisonFailureView::MismatchedElements(elements)) => elements.mismatches,
            Err(_) => Seq::empty(),
        };
        assert(lists_mismatches(left, right, comparator, zero, listed));
        assert forall|row: usize, col: usize|
            is_mismatch_at(left, right, comparator, zero, row, col) == is_mismatch_at(
                other_left,
                other_right,
                comparator,
                zero,
                row,
                col,
            ) by {
            if is_compared(left, right, row, col) {
                assert(left.in_bounds(row, col));
            }
        }
        assert forall|k: int| 0 <= k < listed.len() implies {
            &&& is_mismatch_at(
                other_left,
                other_right,
                comparator,
                zero,
                (#[trigger] listed[k]).row,
                listed[k].col,
            )
            &&& listed[k] == mismatch_at(
                other_left,
                other_right,
                comparator,
                zero,
                listed[k].row,
                listed[k].col,
            )
        } by {
            assert(is_mismatch_at(left, right, comparator, zero, listed[k].row, listed[k].col));
            assert(left.in_bounds(listed[k].row, listed[k].col));
        }
        assert forall|row: usize, col: usize| #[trigger]
            is_mismatch_at(other_left, other_right, comparator, zero, row, col) implies reports(
            listed,
            row,
            col,
        ) by {
            assert(is_mismatch_at(left, right, comparator, zero, row, col));
        }
        assert(lists_mismatches(other_left, other_right, comparator, zero, listed));
    }
}

/// Agreement of matrices goes both ways.
pub proof fn agreement_is_symmetric<T>(a: MatrixView<T>, b: MatrixView<T>)
    requires
        agree(a, b),
    ensures
        agree(b, a),
{
    if b is Dense {
        assert forall|row: usize, col: usize| b.in_bounds(row, col) implies #[trigger] (
        b->Dense_cells)(row, col) == (a->Dense_cells)(row, col) by {
            assert((a->Dense_cells)(row, col) == (b->Dense_cells)(row, col));
        }
    }
}

/// Where the comparator can be asked about every pair of two matrices, it
/// can be asked about every pair of matrices that hold the same.
pub proof fn agreeing_matrices_are_comparable_alike<T, C: ElementwiseComparator<T>>(
    left: MatrixView<T>,
    right: MatrixView<T>,
    other_left: MatrixView<T>,
    other_right: MatrixView<T>,
    comparator: C,
    zero: T,
)
    requires
        agree(left, other_left),
        agree(right, other_right),
        comparable_throughout(left, right, comparator, zero),
    ensures
        comparable_throughout(other_left, other_right, comparator, zero),
{
    if other_left.shape() == other_right.shape() && !has_violation(other_left) && !has_violation(
        other_right,
    ) {
        assert forall|row: usize, col: usize| #[trigger]
            is_compared(other_left, other_right, row, col) implies comparator.comparable(
            value_at(other_left, row, col, zero),
            value_at(other_right, row, col, zero),
        ) by {
            assert(is_compared(left, right, row, col));
            if left is Dense {
                assert((left->Dense_cells)(row, col) == (other_left->Dense_cells)(row, col));
            }
            if right is Dense {
                assert(right.in_bounds(row, col));
                assert((right->Dense_cells)(row, col) == (other_right->Dense_cells)(row, col));
            }
        }
    }
}

} // verus!
