//! The comparison of two matrices, element by element.

use crate::access::{
    has_entry, is_entry_at, value_at, Access, DenseAccess, Matrix, MatrixView, SparseAccess,
};
use crate::comparators::ElementwiseComparator;
use crate::comparison_failure::{
    result_view, DimensionMismatch, ElementsMismatch, Entry, MatrixComparisonFailure,
    MatrixComparisonFailureView, MatrixElementComparisonFailure,
};
use crate::comparison_spec::{
    agree, agreeing_matrices_are_comparable_alike, agreeing_matrices_compare_alike,
    agreement_is_symmetric, all_are_mismatches, comparable_throughout, dense_view, has_violation,
    is_comparison_result, is_compared, is_elementwise_result, is_mismatch_at, is_row_major,
    is_violation_result, list_is_whole_after_last_row, lists_mismatches, lists_mismatches_before,
    match_keeps_list, mismatch_at, mismatch_extends_list, nothing_listed_at_start, precedes,
    reports, row_end_is_next_row_start, sparse_view,
};
use crate::key_order::{ascending_keys, is_ascending, merge_ascending, occurs_between, triplet_keys};
use crate::sparse_map::{
    col_of, coordinate_key, entry_key, holds_entries, is_first_violation, key_coordinate,
    key_keeps_position, key_of, key_order_is_row_major, map_gives_sparse_value, row_of,
    try_build_sparse_hash_map, violation_at, violation_error, well_formed, HashMapBuildError,
};
use num::Zero;
use std::collections::HashMap;
use std::ops::Add;
use vstd::prelude::*;
use vstd::std_specs::ops::AddSpec;

verus! {

/// Turns the mismatches found into the outcome of the comparison: success
/// where there are none, else a failure that carries them all under the
/// comparator's description.
fn outcome_of_mismatches<T, C: ElementwiseComparator<T>>(
    mismatches: Vec<MatrixElementComparisonFailure<T, C::Error>>,
    comparator: &C,
    Ghost(left): Ghost<MatrixView<T>>,
    Ghost(right): Ghost<MatrixView<T>>,
    Ghost(zero): Ghost<T>,
) -> (r: Result<(), MatrixComparisonFailure<T, C::Error>>)
    requires
        lists_mismatches(left, right, *comparator, zero, mismatches@),
    ensures
        is_elementwise_result(left, right, *comparator, zero, result_view(r)),
{
    if mismatches.len() == 0 {
        assert(mismatches@ =~= Seq::empty());
        Ok(())
    } else {
        Err(
            MatrixComparisonFailure::MismatchedElements(
                ElementsMismatch { comparator_description: comparator.description(), mismatches },
            ),
        )
    }
}

/// Compares two dense matrices of `rows` by `cols` elements, position by
/// position and row by row, and lists every position at which the
/// comparator rejects the pair.
pub fn compare_dense_dense<T, L, R, C>(
    rows: usize,
    cols: usize,
    left: &L,
    right: &R,
    comparator: &C,
) -> (r: Result<(), MatrixComparisonFailure<T, C::Error>>) where
    L: DenseAccess<T> + ?Sized,
    R: DenseAccess<T> + ?Sized,
    C: ElementwiseComparator<T>,

    requires
        left.shape() == (rows, cols),
        right.shape() == (rows, cols),
        forall|row: usize, col: usize|
            row < rows && col < cols ==> comparator.comparable(
                #[trigger] left.cell(row, col),
                right.cell(row, col),
            ),
    ensures
        forall|zero: T| #[trigger]
            is_comparison_result(
                dense_view(left),
                dense_view(right),
                *comparator,
                zero,
                result_view(r),
            ),
{
    let ghost lm = dense_view(left);
    let ghost rm = dense_view(right);
    let ghost any: T = arbitrary();
    let mut mismatches: Vec<MatrixElementComparisonFailure<T, C::Error>> = Vec::new();
    proof {
        nothing_listed_at_start(lm, rm, *comparator, any);
    }
    let mut i: usize = 0;
    while i < rows
        invariant
            i <= rows,
            lm == dense_view(left),
            rm == dense_view(right),
            left.shape() == (rows, cols),
            right.shape() == (rows, cols),
            forall|row: usize, col: usize|
                row < rows && col < cols ==> comparator.comparable(
                    #[trigger] left.cell(row, col),
                    right.cell(row, col),
                ),
            lists_mismatches_before(lm, rm, *comparator, any, mismatches@, i as int, 0),
        decreases rows - i,
    {
        let mut j: usize = 0;
        while j < cols
            invariant
                i < rows,
                j <= cols,
                lm == dense_view(left),
                rm == dense_view(right),
                left.shape() == (rows, cols),
                right.shape() == (rows, cols),
                forall|row: usize, col: usize|
                    row < rows && col < cols ==> comparator.comparable(
                        #[trigger] left.cell(row, col),
                        right.cell(row, col),
                    ),
                lists_mismatches_before(lm, rm, *comparator, any, mismatches@, i as int, j as int),
            decreases cols - j,
        {
            let a = left.fetch_single(i, j);
            let b = right.fetch_single(i, j);
            assert(is_compared(lm, rm, i, j));
            assert(value_at(lm, i, j, any) == a && value_at(rm, i, j, any) == b);
            match comparator.compare(&a, &b) {
                Err(error) => {
                    proof {
                        mismatch_extends_list(lm, rm, *comparator, any, mismatches@, i, j);
                    }
                    mismatches.push(
                        MatrixElementComparisonFailure { left: a, right: b, error, row: i, col: j },
                    );
                },
                Ok(()) => {
                    proof {
                        match_keeps_list(lm, rm, *comparator, any, mismatches@, i, j);
                    }
                },
            }
            j += 1;
        }
        proof {
            row_end_is_next_row_start(lm, rm, *comparator, any, mismatches@, i);
        }
        i += 1;
    }
    proof {
        list_is_whole_after_last_row(lm, rm, *comparator, any, mismatches@);
    }
    let r = outcome_of_mismatches(mismatches, comparator, Ghost(lm), Ghost(rm), Ghost(any));
    proof {
        assert forall|zero: T| #[trigger]
            is_comparison_result(lm, rm, *comparator, zero, result_view(r)) by {
            dense_outcome_ignores_zero(lm, rm, *comparator, any, zero, result_view(r));
        }
    }
    r
}

/// The left operand of a comparison of a dense with a sparse matrix: the
/// sparse one where the order is swapped.
pub open spec fn left_operand<T>(
    dense: MatrixView<T>,
    sparse: MatrixView<T>,
    swap_order: bool,
) -> MatrixView<T> {
    if swap_order {
        sparse
    } else {
        dense
    }
}

/// The right operand of a comparison of a dense with a sparse matrix: the
/// dense one where the order is swapped.
pub open spec fn right_operand<T>(
    dense: MatrixView<T>,
    sparse: MatrixView<T>,
    swap_order: bool,
) -> MatrixView<T> {
    if swap_order {
        dense
    } else {
        sparse
    }
}

/// The outcome that a list of mismatches, if there is one, stands for.
pub open spec fn mismatches_as_result<T, E>(found: Option<ElementsMismatch<T, E>>) -> Result<
    (),
    MatrixComparisonFailureView<T, E>,
> {
    match found {
        None => Ok(()),
        Some(elements) => Err(MatrixComparisonFailureView::MismatchedElements(elements@)),
    }
}

/// Compares a dense matrix with a sparse one whose triplets are in order and
/// held by `sparse`, at every position of the shape and row by row. With
/// `swap_order` the sparse matrix is the left operand.
fn find_dense_sparse_mismatches<T, D, C>(
    rows: usize,
    cols: usize,
    dense: &D,
    sparse: &HashMap<u128, T>,
    comparator: &C,
    swap_order: bool,
    zero: T,
    Ghost(triplets): Ghost<Seq<(usize, usize, T)>>,
) -> (found: Option<ElementsMismatch<T, C::Error>>) where
    T: Copy,
    D: DenseAccess<T> + ?Sized,
    C: ElementwiseComparator<T>,

    requires
        dense.shape() == (rows, cols),
        well_formed(triplets, rows, cols),
        holds_entries(sparse@, triplets, triplets.len() as int),
        comparable_throughout(
            left_operand(dense_view(dense), MatrixView::Sparse { rows, cols, triplets }, swap_order),
            right_operand(
                dense_view(dense),
                MatrixView::Sparse { rows, cols, triplets },
                swap_order,
            ),
            *comparator,
            zero,
        ),
    ensures
        is_elementwise_result(
            left_operand(dense_view(dense), MatrixView::Sparse { rows, cols, triplets }, swap_order),
            right_operand(
                dense_view(dense),
                MatrixView::Sparse { rows, cols, triplets },
                swap_order,
            ),
            *comparator,
            zero,
            mismatches_as_result(found),
        ),
{
    let ghost dm = dense_view(dense);
    let ghost sm = MatrixView::Sparse { rows, cols, triplets };
    let ghost lm = left_operand(dm, sm, swap_order);
    let ghost rm = right_operand(dm, sm, swap_order);
    let mut mismatches: Vec<MatrixElementComparisonFailure<T, C::Error>> = Vec::new();
    proof {
        nothing_listed_at_start(lm, rm, *comparator, zero);
    }
    let mut i: usize = 0;
    while i < rows
        invariant
            i <= rows,
            dm == dense_view(dense),
            sm == (MatrixView::Sparse { rows, cols, triplets }),
            lm == left_operand(dm, sm, swap_order),
            rm == right_operand(dm, sm, swap_order),
            dense.shape() == (rows, cols),
            !has_violation(lm),
            !has_violation(rm),
            holds_entries(sparse@, triplets, triplets.len() as int),
            comparable_throughout(lm, rm, *comparator, zero),
            lists_mismatches_before(lm, rm, *comparator, zero, mismatches@, i as int, 0),
        decreases rows - i,
    {
        let mut j: usize = 0;
        while j < cols
            invariant
                i < rows,
                j <= cols,
                dm == dense_view(dense),
                sm == (MatrixView::Sparse { rows, cols, triplets }),
                lm == left_operand(dm, sm, swap_order),
                rm == right_operand(dm, sm, swap_order),
                dense.shape() == (rows, cols),
                !has_violation(lm),
                !has_violation(rm),
                holds_entries(sparse@, triplets, triplets.len() as int),
                comparable_throughout(lm, rm, *comparator, zero),
                lists_mismatches_before(lm, rm, *comparator, zero, mismatches@, i as int, j as int),
            decreases cols - j,
        {
            let from_dense = dense.fetch_single(i, j);
            let key: u128 = coordinate_key(i, j);
            let from_sparse: T = match sparse.get(&key) {
                Some(value) => *value,
                None => zero,
            };
            proof {
                map_gives_sparse_value(sparse@, triplets, i, j, zero);
            }
            let (a, b) = if swap_order {
                (from_sparse, from_dense)
            } else {
                (from_dense, from_sparse)
            };
            assert(is_compared(lm, rm, i, j));
            assert(value_at(lm, i, j, zero) == a && value_at(rm, i, j, zero) == b);
            match comparator.compare(&a, &b) {
                Err(error) => {
                    proof {
                        mismatch_extends_list(lm, rm, *comparator, zero, mismatches@, i, j);
                    }
                    mismatches.push(
                        MatrixElementComparisonFailure { left: a, right: b, error, row: i, col: j },
                    );
                },
                Ok(()) => {
                    proof {
                        match_keeps_list(lm, rm, *comparator, zero, mismatches@, i, j);
                    }
                },
            }
            j += 1;
        }
        proof {
            row_end_is_next_row_start(lm, rm, *comparator, zero, mismatches@, i);
        }
        i += 1;
    }
    proof {
        list_is_whole_after_last_row(lm, rm, *comparator, zero, mismatches@);
    }
    if mismatches.len() == 0 {
        assert(mismatches@ =~= Seq::empty());
        None
    } else {
        Some(ElementsMismatch { comparator_description: comparator.description(), mismatches })
    }
}

/// The failure for a sparse matrix whose triplets are not in order, tagged
/// with the side the matrix is on.
fn violation_as_failure<T, E>(
    error: HashMapBuildError,
    on_left: bool,
    Ghost(matrix): Ghost<MatrixView<T>>,
) -> (failure: MatrixComparisonFailure<T, E>)
    requires
        matrix is Sparse,
        exists|k: int|
            is_first_violation(matrix->Sparse_triplets, matrix.rows(), matrix.cols(), k) && error
                == violation_error(matrix->Sparse_triplets, matrix.rows(), matrix.cols(), k),
    ensures
        is_violation_result(matrix, on_left, Err::<(), MatrixComparisonFailureView<T, E>>(failure@)),
        has_violation(matrix),
{
    proof {
        let k = choose|k: int|
            is_first_violation(matrix->Sparse_triplets, matrix.rows(), matrix.cols(), k) && error
                == violation_error(matrix->Sparse_triplets, matrix.rows(), matrix.cols(), k);
        assert(is_first_violation(matrix->Sparse_triplets, matrix.rows(), matrix.cols(), k));
    }
    match error {
        HashMapBuildError::OutOfBoundsCoord(coord) => {
            if on_left {
                MatrixComparisonFailure::SparseEntryOutOfBounds(Entry::Left(coord))
            } else {
                MatrixComparisonFailure::SparseEntryOutOfBounds(Entry::Right(coord))
            }
        },
        HashMapBuildError::DuplicateCoord(coord) => {
            if on_left {
                MatrixComparisonFailure::DuplicateSparseEntry(Entry::Left(coord))
            } else {
                MatrixComparisonFailure::DuplicateSparseEntry(Entry::Right(coord))
            }
        },
    }
}

/// Compares a dense matrix with a sparse one of the same shape. The
/// triplets of the sparse matrix are checked first; where they are in order,
/// every position of the shape is compared, a position without a triplet
/// holding `zero`. With `swap_order` the sparse matrix is the left operand,
/// in the elements reported and in the side a violation is tagged with.
pub fn compare_dense_sparse<T, D, S, C>(
    rows: usize,
    cols: usize,
    dense: &D,
    sparse: &S,
    comparator: &C,
    swap_order: bool,
    zero: T,
) -> (r: Result<(), MatrixComparisonFailure<T, C::Error>>) where
    T: Copy,
    D: DenseAccess<T> + ?Sized,
    S: SparseAccess<T> + ?Sized,
    C: ElementwiseComparator<T>,

    requires
        dense.shape() == (rows, cols),
        comparable_throughout(
            left_operand(dense_view(dense), sparse_view(sparse, rows, cols), swap_order),
            right_operand(dense_view(dense), sparse_view(sparse, rows, cols), swap_order),
            *comparator,
            zero,
        ),
    ensures
        is_comparison_result(
            left_operand(dense_view(dense), sparse_view(sparse, rows, cols), swap_order),
            right_operand(dense_view(dense), sparse_view(sparse, rows, cols), swap_order),
            *comparator,
            zero,
            result_view(r),
        ),
{
    let triplets = sparse.fetch_triplets();
    let ghost sm = sparse_view(sparse, rows, cols);
    match try_build_sparse_hash_map(rows, cols, triplets.as_slice()) {
        Ok(map) => {
            let found = find_dense_sparse_mismatches(
                rows,
                cols,
                dense,
                &map,
                comparator,
                swap_order,
                zero,
                Ghost(triplets@),
            );
            match found {
                Some(mismatches) => Err(MatrixComparisonFailure::MismatchedElements(mismatches)),
                None => Ok(()),
            }
        },
        Err(error) => Err(violation_as_failure(error, swap_order, Ghost(sm))),
    }
}

/// Whether `key` is the key of the position of one of the triplets.
pub open spec fn is_key_of_entry<T>(triplets: Seq<(usize, usize, T)>, key: u128) -> bool {
    exists|k: int| 0 <= k < triplets.len() && #[trigger] entry_key(triplets, k) == key
}

/// A key of a triplet of one of two sparse matrices, both with their
/// triplets in order, stands for a position that the comparison looks at.
proof fn entry_key_is_compared<T>(left: MatrixView<T>, right: MatrixView<T>, key: u128)
    requires
        left is Sparse,
        right is Sparse,
        left.shape() == right.shape(),
        !has_violation(left),
        !has_violation(right),
        is_key_of_entry(left->Sparse_triplets, key) || is_key_of_entry(right->Sparse_triplets, key),
    ensures
        key_of(row_of(key), col_of(key)) == key,
        key as int / 0x1_0000_0000_0000_0000 <= usize::MAX,
        key as int % 0x1_0000_0000_0000_0000 <= usize::MAX,
        is_compared(left, right, row_of(key), col_of(key)),
{
    let lt = left->Sparse_triplets;
    let rt = right->Sparse_triplets;
    if is_key_of_entry(lt, key) {
        let k = choose|k: int| 0 <= k < lt.len() && #[trigger] entry_key(lt, k) == key;
        key_keeps_position(lt[k].0, lt[k].1);
        assert(!violation_at(lt, left.rows(), left.cols(), k));
        assert(is_entry_at(lt, k, row_of(key), col_of(key)));
    } else {
        let k = choose|k: int| 0 <= k < rt.len() && #[trigger] entry_key(rt, k) == key;
        key_keeps_position(rt[k].0, rt[k].1);
        assert(!violation_at(rt, right.rows(), right.cols(), k));
        assert(is_entry_at(rt, k, row_of(key), col_of(key)));
    }
}

/// A position that the comparison of two sparse matrices looks at has the
/// key of a triplet of one of them.
proof fn compared_position_has_entry_key<T>(
    left: MatrixView<T>,
    right: MatrixView<T>,
    row: usize,
    col: usize,
)
    requires
        left is Sparse,
        right is Sparse,
        is_compared(left, right, row, col),
    ensures
        is_key_of_entry(left->Sparse_triplets, key_of(row, col)) || is_key_of_entry(
            right->Sparse_triplets,
            key_of(row, col),
        ),
{
    let lt = left->Sparse_triplets;
    let rt = right->Sparse_triplets;
    if has_entry(lt, row, col) {
        let k = choose|k: int| is_entry_at(lt, k, row, col);
        assert(entry_key(lt, k) == key_of(row, col));
    } else {
        let k = choose|k: int| is_entry_at(rt, k, row, col);
        assert(entry_key(rt, k) == key_of(row, col));
    }
}

/// The keys of the positions at which one of the two lists has a triplet,
/// in ascending order and each once.
fn union_of_keys<T: Copy>(
    left_triplets: &[(usize, usize, T)],
    right_triplets: &[(usize, usize, T)],
) -> (keys: Vec<u128>)
    ensures
        is_ascending(keys@),
        forall|key: u128|
            keys@.contains(key) <==> (is_key_of_entry(left_triplets@, key) || is_key_of_entry(
                right_triplets@,
                key,
            )),
{
    let left_keys = triplet_keys(left_triplets);
    let right_keys = triplet_keys(right_triplets);
    let left_sorted = ascending_keys(&left_keys);
    let right_sorted = ascending_keys(&right_keys);
    let keys = merge_ascending(&left_sorted, &right_sorted);
    proof {
        assert forall|key: u128| left_keys@.contains(key) <==> is_key_of_entry(
            left_triplets@,
            key,
        ) by {
            if left_keys@.contains(key) {
                let k = choose|k: int| 0 <= k < left_keys@.len() && left_keys@[k] == key;
                assert(entry_key(left_triplets@, k) == key);
            }
            if is_key_of_entry(left_triplets@, key) {
                let k = choose|k: int|
                    0 <= k < left_triplets@.len() && #[trigger] entry_key(left_triplets@, k) == key;
                assert(left_keys@[k] == key);
            }
        }
        assert forall|key: u128| right_keys@.contains(key) <==> is_key_of_entry(
            right_triplets@,
            key,
        ) by {
            if right_keys@.contains(key) {
                let k = choose|k: int| 0 <= k < right_keys@.len() && right_keys@[k] == key;
                assert(entry_key(right_triplets@, k) == key);
            }
            if is_key_of_entry(right_triplets@, key) {
                let k = choose|k: int|
                    0 <= k < right_triplets@.len() && #[trigger] entry_key(right_triplets@, k)
                        == key;
                assert(right_keys@[k] == key);
            }
        }
    }
    keys
}

/// Whether `mismatches` lists the mismatches at the positions of the first
/// `done` keys, and only those.
pub open spec fn lists_mismatches_of_keys<T, C: ElementwiseComparator<T>>(
    left: MatrixView<T>,
    right: MatrixView<T>,
    comparator: C,
    zero: T,
    mismatches: Seq<MatrixElementComparisonFailure<T, C::Error>>,
    keys: Seq<u128>,
    done: int,
) -> bool {
    &&& all_are_mismatches(left, right, comparator, zero, mismatches)
    &&& is_row_major(mismatches)
    &&& forall|k: int|
        0 <= k < mismatches.len() ==> occurs_between(
            keys,
            0,
            done,
            key_of((#[trigger] mismatches[k]).row, mismatches[k].col),
        )
    &&& forall|m: int|
        0 <= m < done && is_mismatch_at(
            left,
            right,
            comparator,
            zero,
            row_of(#[trigger] keys[m]),
            col_of(keys[m]),
        ) ==> reports(mismatches, row_of(keys[m]), col_of(keys[m]))
}

/// A mismatch at the position of the next key is added to the list.
proof fn mismatch_extends_key_list<T, C: ElementwiseComparator<T>>(
    left: MatrixView<T>,
    right: MatrixView<T>,
    comparator: C,
    zero: T,
    mismatches: Seq<MatrixElementComparisonFailure<T, C::Error>>,
    keys: Seq<u128>,
    done: int,
)
    requires
        0 <= done < keys.len(),
        is_ascending(keys),
        key_of(row_of(keys[done]), col_of(keys[done])) == keys[done],
        lists_mismatches_of_keys(left, right, comparator, zero, mismatches, keys, done),
        is_mismatch_at(left, right, comparator, zero, row_of(keys[done]), col_of(keys[done])),
    ensures
        lists_mismatches_of_keys(
            left,
            right,
            comparator,
            zero,
            mismatches.push(
                mismatch_at(left, right, comparator, zero, row_of(keys[done]), col_of(keys[done])),
            ),
            keys,
            done + 1,
        ),
{
    let row = row_of(keys[done]);
    let col = col_of(keys[done]);
    let item = mismatch_at(left, right, comparator, zero, row, col);
    let longer = mismatches.push(item);
    assert forall|k: int| 0 <= k < longer.len() implies {
        &&& is_mismatch_at(left, right, comparator, zero, (#[trigger] longer[k]).row, longer[k].col)
        &&& longer[k] == mismatch_at(left, right, comparator, zero, longer[k].row, longer[k].col)
        &&& occurs_between(keys, 0, done + 1, key_of(longer[k].row, longer[k].col))
    } by {
        if k < mismatches.len() {
            assert(longer[k] == mismatches[k]);
            let at = choose|at: int|
                0 <= at < done && 0 <= at < keys.len() && keys[at] == key_of(
                    mismatches[k].row,
                    mismatches[k].col,
                );
            assert(0 <= at < done + 1 && keys[at] == key_of(longer[k].row, longer[k].col));
        } else {
            assert(keys[done] == key_of(longer[k].row, longer[k].col));
        }
    }
    assert forall|a: int, b: int| 0 <= a < b < longer.len() implies precedes(
        (#[trigger] longer[a]).coordinate(),
        (#[trigger] longer[b]).coordinate(),
    ) by {
        assert(longer[a] == mismatches[a]);
        if b < mismatches.len() {
            assert(longer[b] == mismatches[b]);
        } else {
            let at = choose|at: int|
                0 <= at < done && 0 <= at < keys.len() && keys[at] == key_of(
                    mismatches[a].row,
                    mismatches[a].col,
                );
            assert(keys[at] < keys[done]);
            key_order_is_row_major(mismatches[a].row, mismatches[a].col, row, col);
        }
    }
    assert forall|m: int|
        0 <= m < done + 1 && is_mismatch_at(
            left,
            right,
            comparator,
            zero,
            row_of(#[trigger] keys[m]),
            col_of(keys[m]),
        ) implies reports(longer, row_of(keys[m]), col_of(keys[m])) by {
        if m < done {
            let k = choose|k: int|
                0 <= k < mismatches.len() && (#[trigger] mismatches[k]).row == row_of(keys[m])
                    && mismatches[k].col == col_of(keys[m]);
            assert(longer[k] == mismatches[k]);
        } else {
            assert(longer[mismatches.len() as int] == item);
        }
    }
}

/// A position without a mismatch leaves the list as it is.
proof fn match_keeps_key_list<T, C: ElementwiseComparator<T>>(
    left: MatrixView<T>,
    right: MatrixView<T>,
    comparator: C,
    zero: T,
    mismatches: Seq<MatrixElementComparisonFailure<T, C::Error>>,
    keys: Seq<u128>,
    done: int,
)
    requires
        0 <= done < keys.len(),
        lists_mismatches_of_keys(left, right, comparator, zero, mismatches, keys, done),
        !is_mismatch_at(left, right, comparator, zero, row_of(keys[done]), col_of(keys[done])),
    ensures
        lists_mismatches_of_keys(left, right, comparator, zero, mismatches, keys, done + 1),
{
    assert forall|k: int| 0 <= k < mismatches.len() implies occurs_between(
        keys,
        0,
        done + 1,
        key_of((#[trigger] mismatches[k]).row, mismatches[k].col),
    ) by {
        let at = choose|at: int|
            0 <= at < done && 0 <= at < keys.len() && keys[at] == key_of(
                mismatches[k].row,
                mismatches[k].col,
            );
        assert(0 <= at < done + 1 && keys[at] == key_of(mismatches[k].row, mismatches[k].col));
    }
}

/// Once every key of a triplet has had its turn, the list is that of all
/// the mismatches of the two sparse matrices.
proof fn key_list_is_whole<T, C: ElementwiseComparator<T>>(
    left: MatrixView<T>,
    right: MatrixView<T>,
    comparator: C,
    zero: T,
    mismatches: Seq<MatrixElementComparisonFailure<T, C::Error>>,
    keys: Seq<u128>,
)
    requires
        left is Sparse,
        right is Sparse,
        forall|key: u128|
            keys.contains(key) <==> (is_key_of_entry(left->Sparse_triplets, key)
                || is_key_of_entry(right->Sparse_triplets, key)),
        lists_mismatches_of_keys(
            left,
            right,
            comparator,
            zero,
            mismatches,
            keys,
            keys.len() as int,
        ),
    ensures
        lists_mismatches(left, right, comparator, zero, mismatches),
{
    assert forall|row: usize, col: usize| #[trigger]
        is_mismatch_at(left, right, comparator, zero, row, col) implies reports(
        mismatches,
        row,
        col,
    ) by {
        compared_position_has_entry_key(left, right, row, col);
        assert(keys.contains(key_of(row, col)));
        let m = choose|m: int| 0 <= m < keys.len() && keys[m] == key_of(row, col);
        key_keeps_position(row, col);
        assert(row_of(keys[m]) == row && col_of(keys[m]) == col);
    }
}

/// Compares two sparse matrices of the same shape. The triplets of the left
/// matrix are checked first, then those of the right one. Where both are in
/// order, the positions at which one of the two has a triplet are compared,
/// a position without a triplet holding `zero`, and the mismatches are
/// listed by `(row, col)` ascending, whatever the order of the triplets:
/// the positions are put in that order before they are compared. No
/// position without a triplet is looked at, so the work is in the order of
/// `k log k` steps, `k` the number of triplets, whatever the shape.
pub fn compare_sparse_sparse<T, L, R, C>(
    rows: usize,
    cols: usize,
    left: &L,
    right: &R,
    comparator: &C,
    zero: T,
) -> (r: Result<(), MatrixComparisonFailure<T, C::Error>>) where
    T: Copy,
    L: SparseAccess<T> + ?Sized,
    R: SparseAccess<T> + ?Sized,
    C: ElementwiseComparator<T>,

    requires
        comparable_throughout(
            sparse_view(left, rows, cols),
            sparse_view(right, rows, cols),
            *comparator,
            zero,
        ),
    ensures
        is_comparison_result(
            sparse_view(left, rows, cols),
            sparse_view(right, rows, cols),
            *comparator,
            zero,
            result_view(r),
        ),
{
    let ghost lm = sparse_view(left, rows, cols);
    let ghost rm = sparse_view(right, rows, cols);
    let left_triplets = left.fetch_triplets();
    let left_map = match try_build_sparse_hash_map(rows, cols, left_triplets.as_slice()) {
        Ok(map) => map,
        Err(error) => {
            return Err(violation_as_failure(error, true, Ghost(lm)));
        },
    };
    let right_triplets = right.fetch_triplets();
    let right_map = match try_build_sparse_hash_map(rows, cols, right_triplets.as_slice()) {
        Ok(map) => map,
        Err(error) => {
            return Err(violation_as_failure(error, false, Ghost(rm)));
        },
    };
    let keys = union_of_keys(left_triplets.as_slice(), right_triplets.as_slice());
    let mut mismatches: Vec<MatrixElementComparisonFailure<T, C::Error>> = Vec::new();
    let mut done: usize = 0;
    while done < keys.len()
        invariant
            done <= keys@.len(),
            lm == sparse_view(left, rows, cols),
            rm == sparse_view(right, rows, cols),
            left_triplets@ == lm->Sparse_triplets,
            right_triplets@ == rm->Sparse_triplets,
            !has_violation(lm),
            !has_violation(rm),
            holds_entries(left_map@, left_triplets@, left_triplets@.len() as int),
            holds_entries(right_map@, right_triplets@, right_triplets@.len() as int),
            is_ascending(keys@),
            forall|key: u128|
                keys@.contains(key) <==> (is_key_of_entry(left_triplets@, key) || is_key_of_entry(
                    right_triplets@,
                    key,
                )),
            comparable_throughout(lm, rm, *comparator, zero),
            lists_mismatches_of_keys(lm, rm, *comparator, zero, mismatches@, keys@, done as int),
        decreases keys@.len() - done,
    {
        let key: u128 = keys[done];
        proof {
            assert(keys@.contains(key));
            entry_key_is_compared(lm, rm, key);
        }
        let (i, j) = key_coordinate(key);
        let a: T = match left_map.get(&key) {
            Some(value) => *value,
            None => zero,
        };
        let b: T = match right_map.get(&key) {
            Some(value) => *value,
            None => zero,
        };
        proof {
            map_gives_sparse_value(left_map@, left_triplets@, i, j, zero);
            map_gives_sparse_value(right_map@, right_triplets@, i, j, zero);
        }
        assert(value_at(lm, i, j, zero) == a && value_at(rm, i, j, zero) == b);
        match comparator.compare(&a, &b) {
            Err(error) => {
                proof {
                    mismatch_extends_key_list(
                        lm,
                        rm,
                        *comparator,
                        zero,
                        mismatches@,
                        keys@,
                        done as int,
                    );
                }
                mismatches.push(
                    MatrixElementComparisonFailure { left: a, right: b, error, row: i, col: j },
                );
            },
            Ok(()) => {
                proof {
                    match_keeps_key_list(
                        lm,
                        rm,
                        *comparator,
                        zero,
                        mismatches@,
                        keys@,
                        done as int,
                    );
                }
            },
        }
        done += 1;
    }
    proof {
        key_list_is_whole(lm, rm, *comparator, zero, mismatches@, keys@);
    }
    outcome_of_mismatches(mismatches, comparator, Ghost(lm), Ghost(rm), Ghost(zero))
}

/// The dense matrix behind an access to `matrix` holds what `matrix` holds.
proof fn dense_access_agrees<T, D: DenseAccess<T> + ?Sized>(dense: &D, matrix: MatrixView<T>)
    requires
        matrix is Dense,
        dense.shape() == matrix.shape(),
        forall|row: usize, col: usize|
            matrix.in_bounds(row, col) ==> #[trigger] dense.cell(row, col) == (
            matrix->Dense_cells)(row, col),
    ensures
        agree(matrix, dense_view(dense)),
        agree(dense_view(dense), matrix),
{
    let view = dense_view(dense);
    assert forall|row: usize, col: usize| matrix.in_bounds(row, col) implies #[trigger] (
    matrix->Dense_cells)(row, col) == (view->Dense_cells)(row, col) by {
        assert(dense.cell(row, col) == (matrix->Dense_cells)(row, col));
    }
    agreement_is_symmetric(matrix, view);
}

/// Compares two matrices, where `zero` is the value of every position that
/// a sparse matrix has no triplet for.
///
/// Matrices of different shapes give `MismatchedDimensions`, before any
/// element is looked at. Otherwise a sparse operand has its triplets checked,
/// the left one first, and the first triplet that is out of bounds or
/// repeats a position gives `SparseEntryOutOfBounds` or
/// `DuplicateSparseEntry`, tagged with the operand's side. Otherwise the
/// outcome is success where the comparator accepts every pair, and else
/// `MismatchedElements` with every mismatch, by `(row, col)` ascending.
pub fn compare_matrices_with_zero<T, L, R, C>(left: L, right: R, comparator: &C, zero: T) -> (r:
    Result<(), MatrixComparisonFailure<T, C::Error>>) where
    T: Copy,
    L: Matrix<T>,
    R: Matrix<T>,
    C: ElementwiseComparator<T>,

    requires
        comparable_throughout(left.model(), right.model(), *comparator, zero),
    ensures
        is_comparison_result(left.model(), right.model(), *comparator, zero, result_view(r)),
{
    let rows = left.rows();
    let cols = left.cols();
    let right_rows = right.rows();
    let right_cols = right.cols();
    if rows != right_rows || cols != right_cols {
        return Err(
            MatrixComparisonFailure::MismatchedDimensions(
                DimensionMismatch { dim_left: (rows, cols), dim_right: (right_rows, right_cols) },
            ),
        );
    }
    let ghost lm = left.model();
    let ghost rm = right.model();
    match left.access() {
        Access::Dense(left_dense) => match right.access() {
            Access::Dense(right_dense) => {
                proof {
                    dense_access_agrees(left_dense, lm);
                    dense_access_agrees(right_dense, rm);
                    agreeing_matrices_are_comparable_alike(
                        lm,
                        rm,
                        dense_view(left_dense),
                        dense_view(right_dense),
                        *comparator,
                        zero,
                    );
                    assert forall|row: usize, col: usize|
                        row < rows && col < cols implies comparator.comparable(
                        #[trigger] left_dense.cell(row, col),
                        right_dense.cell(row, col),
                    ) by {
                        assert(is_compared(
                            dense_view(left_dense),
                            dense_view(right_dense),
                            row,
                            col,
                        ));
                    }
                }
                let r = compare_dense_dense(rows, cols, left_dense, right_dense, comparator);
                proof {
                    assert(is_comparison_result(
                        dense_view(left_dense),
                        dense_view(right_dense),
                        *comparator,
                        zero,
                        result_view(r),
                    ));
                    agreeing_matrices_compare_alike(
                        dense_view(left_dense),
                        dense_view(right_dense),
                        lm,
                        rm,
                        *comparator,
                        zero,
                        result_view(r),
                    );
                }
                r
            },
            Access::Sparse(right_sparse) => {
                proof {
                    dense_access_agrees(left_dense, lm);
                    agreeing_matrices_are_comparable_alike(
                        lm,
                        rm,
                        dense_view(left_dense),
                        sparse_view(right_sparse, rows, cols),
                        *comparator,
                        zero,
                    );
                }
                let r = compare_dense_sparse(
                    rows,
                    cols,
                    left_dense,
                    right_sparse,
                    comparator,
                    false,
                    zero,
                );
                proof {
                    agreeing_matrices_compare_alike(
                        dense_view(left_dense),
                        sparse_view(right_sparse, rows, cols),
                        lm,
                        rm,
                        *comparator,
                        zero,
                        result_view(r),
                    );
                }
                r
            },
        },
        Access::Sparse(left_sparse) => match right.access() {
            Access::Dense(right_dense) => {
                proof {
                    dense_access_agrees(right_dense, rm);
                    agreeing_matrices_are_comparable_alike(
                        lm,
                        rm,
                        sparse_view(left_sparse, rows, cols),
                        dense_view(right_dense),
                        *comparator,
                        zero,
                    );
                }
                let r = compare_dense_sparse(
                    rows,
                    cols,
                    right_dense,
                    left_sparse,
                    comparator,
                    true,
                    zero,
                );
                proof {
                    agreeing_matrices_compare_alike(
                        sparse_view(left_sparse, rows, cols),
                        dense_view(right_dense),
                        lm,
                        rm,
                        *comparator,
                        zero,
                        result_view(r),
                    );
                }
                r
            },
            Access::Sparse(right_sparse) => {
                assert(lm == sparse_view(left_sparse, rows, cols));
                assert(rm == sparse_view(right_sparse, rows, cols));
                compare_sparse_sparse(rows, cols, left_sparse, right_sparse, comparator, zero)
            },
        },
    }
}

/// Whether `zero` is an additive identity of `T`: added to a value, on
/// either side, it gives the value back. This speaks of a type whose `+` is
/// the one its specification gives, and of the sums that can be computed.
pub open spec fn is_additive_identity<T: Add<Output = T>>(zero: T) -> bool {
    <T as AddSpec>::obeys_add_spec() ==> {
        &&& forall|a: T| #[trigger] a.add_req(zero) ==> a.add_spec(zero) == a
        &&& forall|a: T| #[trigger] zero.add_req(a) ==> zero.add_spec(a) == a
    }
}

/// A type has one additive identity: two of them, where their sum can be
/// computed, are the same value.
pub proof fn additive_identity_is_unique<T: Add<Output = T>>(zero: T, other: T)
    requires
        <T as AddSpec>::obeys_add_spec(),
        zero.add_req(other),
        is_additive_identity(zero),
        is_additive_identity(other),
    ensures
        zero == other,
{
    assert(zero.add_spec(other) == zero);
    assert(zero.add_spec(other) == other);
}

/// The additive identity of `T`, as `num::Zero::zero` returns it. The
/// contract claims the law that the trait `Zero` states of its zero: a value
/// plus the zero, and the zero plus a value, is the value.
#[verifier::external_body]
pub(crate) fn additive_zero<T: Zero>() -> (zero: T)
    ensures
        is_additive_identity(zero),
{
    T::zero()
}

/// Compares two matrices. A position that a sparse matrix has no triplet for
/// holds the additive identity of `T`.
///
/// The outcome is that of [`compare_matrices_with_zero`] for the additive
/// identity that `T` gives as its zero.
pub fn compare_matrices<T, L, R, C>(left: L, right: R, comparator: &C) -> (r: Result<
    (),
    MatrixComparisonFailure<T, C::Error>,
>) where T: Zero + Copy, L: Matrix<T>, R: Matrix<T>, C: ElementwiseComparator<T>
    requires
        forall|zero: T|
            is_additive_identity(zero) ==> comparable_throughout(
                left.model(),
                right.model(),
                *comparator,
                zero,
            ),
    ensures
        exists|zero: T|
            is_additive_identity(zero) && #[trigger] is_comparison_result(
                left.model(),
                right.model(),
                *comparator,
                zero,
                result_view(r),
            ),
{
    let zero: T = additive_zero::<T>();
    compare_matrices_with_zero(left, right, comparator, zero)
}

/// Between two dense matrices no position is without an element, so the
/// outcome does not depend on the value that stands for zero.
pub proof fn dense_outcome_ignores_zero<T, C: ElementwiseComparator<T>>(
    left: MatrixView<T>,
    right: MatrixView<T>,
    comparator: C,
    zero: T,
    other_zero: T,
    result: Result<(), MatrixComparisonFailureView<T, C::Error>>,
)
    requires
        left is Dense,
        right is Dense,
        left.shape() == right.shape(),
        is_elementwise_result(left, right, comparator, zero, result),
    ensures
        is_comparison_result(left, right, comparator, other_zero, result),
{
    assert forall|row: usize, col: usize|
        is_mismatch_at(left, right, comparator, zero, row, col) == is_mismatch_at(
            left,
            right,
            comparator,
            other_zero,
            row,
            col,
        ) && mismatch_at(left, right, comparator, zero, row, col) == mismatch_at(
            left,
            right,
            comparator,
            other_zero,
            row,
            col,
        ) by {}
    let listed = match result {
        Ok(()) => Seq::empty(),
        Err(MatrixComparisonFailureView::MismatchedElements(elements)) => elements.mismatches,
        Err(_) => Seq::empty(),
    };
    assert(lists_mismatches(left, right, comparator, zero, listed));
    assert(lists_mismatches(left, right, comparator, other_zero, listed)) by {
        assert forall|k: int| 0 <= k < listed.len() implies {
            &&& is_mismatch_at(
                left,
                right,
                comparator,
                other_zero,
                (#[trigger] listed[k]).row,
                listed[k].col,
            )
            &&& listed[k] == mismatch_at(
                left,
                right,
                comparator,
                other_zero,
                listed[k].row,
                listed[k].col,
            )
        } by {
            assert(is_mismatch_at(left, right, comparator, zero, listed[k].row, listed[k].col));
        }
        assert forall|row: usize, col: usize| #[trigger]
            is_mismatch_at(left, right, comparator, other_zero, row, col) implies reports(
            listed,
            row,
            col,
        ) by {
            assert(is_mismatch_at(left, right, comparator, zero, row, col));
        }
    }
}

} // verus!
