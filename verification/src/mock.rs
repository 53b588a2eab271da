//! A plain dense matrix and a plain sparse matrix, to try the comparison on.

use crate::access::{
    has_entry, is_entry_at, sparse_value, Access, DenseAccess, Matrix, MatrixView, SparseAccess,
};
use crate::comparison_spec::has_violation;
use crate::laws::is_dense_form;
use crate::matrix_comparison::{additive_zero, is_additive_identity};
use crate::sparse_map::{same_position, violation_at, well_formed};
use num::Zero;
use std::ops::Range;
use vstd::prelude::*;

verus! {

/// A dense matrix that holds its elements row by row.
#[derive(Debug)]
pub struct MockDenseMatrix<T> {
    data: Vec<T>,
    rows: usize,
    cols: usize,
}

/// A sparse matrix that holds whatever triplets it was given.
#[derive(Clone, Debug)]
pub struct MockSparseMatrix<T> {
    rows: usize,
    cols: usize,
    triplets: Vec<(usize, usize, T)>,
}

/// The value that `triplets`, written one after the other into a matrix of
/// `zero`s, leave at `(row, col)`: that of the last triplet there.
pub open spec fn last_value_at<T>(
    triplets: Seq<(usize, usize, T)>,
    row: usize,
    col: usize,
    zero: T,
) -> T
    decreases triplets.len(),
{
    if triplets.len() == 0 {
        zero
    } else if triplets.last().0 == row && triplets.last().1 == col {
        triplets.last().2
    } else {
        last_value_at(triplets.drop_last(), row, col, zero)
    }
}

/// Whether every triplet lies inside a `rows` by `cols` shape.
pub open spec fn all_in_bounds<T>(triplets: Seq<(usize, usize, T)>, rows: usize, cols: usize) -> bool {
    forall|k: int| 0 <= k < triplets.len() ==> (#[trigger] triplets[k]).0 < rows && triplets[k].1 < cols
}

impl<T> MockSparseMatrix<T> {
    /// The declared number of rows.
    pub closed spec fn spec_rows(&self) -> usize {
        self.rows
    }

    /// The declared number of columns.
    pub closed spec fn spec_cols(&self) -> usize {
        self.cols
    }

    /// The triplets, in their order.
    pub closed spec fn spec_triplets(&self) -> Seq<(usize, usize, T)> {
        self.triplets@
    }

    /// The sparse matrix of the given shape and triplets. The triplets are
    /// kept as they are, in bounds or not, repeated or not.
    pub fn from_triplets(rows: usize, cols: usize, triplets: Vec<(usize, usize, T)>) -> (matrix:
        Self)
        ensures
            matrix.spec_rows() == rows,
            matrix.spec_cols() == cols,
            matrix.spec_triplets() == triplets@,
    {
        MockSparseMatrix { rows, cols, triplets }
    }

    /// The triplets of the matrix.
    pub fn take_triplets(self) -> (triplets: Vec<(usize, usize, T)>)
        ensures
            triplets@ == self.spec_triplets(),
    {
        self.triplets
    }
}

impl<T: Copy> MockSparseMatrix<T> {
    /// The dense matrix that the triplets, written in their order into a
    /// matrix of `zero`s, give; nothing where a triplet is out of bounds.
    pub fn to_dense_with_zero(&self, zero: T) -> (r: Result<MockDenseMatrix<T>, ()>)
        requires
            self.spec_rows() * self.spec_cols() <= usize::MAX,
        ensures
            r is Ok <==> all_in_bounds(self.spec_triplets(), self.spec_rows(), self.spec_cols()),
            r matches Ok(dense) ==> dense.holds_written(
                self.spec_triplets(),
                self.spec_rows(),
                self.spec_cols(),
                zero,
            ),
    {
        let rows = self.rows;
        let cols = self.cols;
        let size: usize = rows * cols;
        let mut data: Vec<T> = Vec::new();
        let mut filled: usize = 0;
        while filled < size
            invariant
                filled <= size,
                data@.len() == filled,
                forall|k: int| 0 <= k < filled ==> data@[k] == zero,
            decreases size - filled,
        {
            data.push(zero);
            filled += 1;
        }
        let mut result = MockDenseMatrix::from_row_major(rows, cols, data);
        proof {
            assert forall|row: usize, col: usize| row < rows && col < cols implies #[trigger]
                result.element(row, col) == last_value_at(
                self.triplets@.take(0),
                row,
                col,
                zero,
            ) by {
                position_is_inside(row as int, col as int, rows as int, cols as int);
            }
        }
        let n: usize = self.triplets.len();
        let mut k: usize = 0;
        while k < n
            invariant
                k <= n,
                n == self.triplets@.len(),
                rows == self.rows,
                cols == self.cols,
                result.spec_rows() == rows,
                result.spec_cols() == cols,
                all_in_bounds(self.triplets@.take(k as int), rows, cols),
                forall|row: usize, col: usize|
                    row < rows && col < cols ==> #[trigger] result.element(row, col)
                        == last_value_at(self.triplets@.take(k as int), row, col, zero),
            decreases n - k,
        {
            let (i, j, v) = self.triplets[k];
            let ghost before = result;
            if !result.set(i, j, v) {
                proof {
                    assert(!((#[trigger] self.triplets@[k as int]).0 < rows && self.triplets@[k as int].1
                        < cols));
                }
                return Err(());
            }
            proof {
                let shorter = self.triplets@.take(k as int);
                let longer = self.triplets@.take(k + 1);
                assert(longer.drop_last() =~= shorter);
                assert(longer.last() == self.triplets@[k as int]);
                assert forall|e: int| 0 <= e < longer.len() implies (#[trigger] longer[e]).0 < rows
                    && longer[e].1 < cols by {
                    if e < k {
                        assert(shorter[e] == longer[e]);
                    }
                }
                assert forall|row: usize, col: usize| row < rows && col < cols implies #[trigger]
                    result.element(row, col) == last_value_at(longer, row, col, zero) by {
                    assert(before.element(row, col) == last_value_at(shorter, row, col, zero));
                }
            }
            k += 1;
        }
        assert(self.triplets@.take(n as int) =~= self.triplets@);
        Ok(result)
    }
}

impl<T: Zero + Copy> MockSparseMatrix<T> {
    /// The dense matrix that the triplets, written in their order into a
    /// matrix of zeros, give; nothing where a triplet is out of bounds. The
    /// zero is the additive identity of `T`.
    pub fn to_dense(&self) -> (r: Result<MockDenseMatrix<T>, ()>)
        requires
            self.spec_rows() * self.spec_cols() <= usize::MAX,
        ensures
            r is Ok <==> all_in_bounds(self.spec_triplets(), self.spec_rows(), self.spec_cols()),
            r matches Ok(dense) ==> exists|zero: T|
                is_additive_identity(zero) && #[trigger] dense.holds_written(
                    self.spec_triplets(),
                    self.spec_rows(),
                    self.spec_cols(),
                    zero,
                ),
    {
        let zero: T = additive_zero::<T>();
        self.to_dense_with_zero(zero)
    }
}

impl<T> MockDenseMatrix<T> {
    #[verifier::type_invariant]
    spec fn data_fills_shape(&self) -> bool {
        self.data@.len() == self.rows * self.cols
    }

    /// The number of rows.
    pub closed spec fn spec_rows(&self) -> usize {
        self.rows
    }

    /// The number of columns.
    pub closed spec fn spec_cols(&self) -> usize {
        self.cols
    }

    /// The elements, row by row.
    pub closed spec fn spec_data(&self) -> Seq<T> {
        self.data@
    }

    /// The element at `(row, col)`.
    pub open spec fn element(&self, row: usize, col: usize) -> T {
        self.spec_data()[row * self.spec_cols() + col]
    }

    /// Whether this is the `rows` by `cols` matrix that the triplets, written
    /// one after the other into a matrix of `zero`s, give.
    pub open spec fn holds_written(
        &self,
        triplets: Seq<(usize, usize, T)>,
        rows: usize,
        cols: usize,
        zero: T,
    ) -> bool {
        &&& self.spec_rows() == rows
        &&& self.spec_cols() == cols
        &&& forall|row: usize, col: usize|
            row < rows && col < cols ==> #[trigger] self.element(row, col) == last_value_at(
                triplets,
                row,
                col,
                zero,
            )
    }

    /// The matrix of `rows` by `cols` elements that holds `data` row by row.
    pub fn from_row_major(rows: usize, cols: usize, data: Vec<T>) -> (matrix: Self)
        requires
            rows * cols == data@.len(),
        ensures
            matrix.spec_rows() == rows,
            matrix.spec_cols() == cols,
            matrix.spec_data() == data@,
    {
        MockDenseMatrix { data, rows, cols }
    }

    /// Where the element at `(i, j)` stands in the row-major data, if the
    /// position is inside the shape.
    fn get_linear_index(&self, i: usize, j: usize) -> (index: Option<usize>)
        ensures
            index is Some <==> i < self.spec_rows() && j < self.spec_cols(),
            index matches Some(at) ==> at == i * self.spec_cols() + j && at
                < self.spec_data().len(),
    {
        proof {
            use_type_invariant(self);
        }
        let _len: usize = self.data.len();
        if i < self.rows && j < self.cols {
            proof {
                position_is_inside(i as int, j as int, self.rows as int, self.cols as int);
            }
            Some(i * self.cols + j)
        } else {
            None
        }
    }

    /// The element at `(i, j)`, if the position is inside the shape.
    pub fn get(&self, i: usize, j: usize) -> (r: Option<&T>)
        ensures
            r is Some <==> i < self.spec_rows() && j < self.spec_cols(),
            r matches Some(value) ==> *value == self.element(i, j),
    {
        match self.get_linear_index(i, j) {
            Some(index) => Some(&self.data[index]),
            None => None,
        }
    }

    /// The element at `(i, j)`, to be written to, if the position is inside
    /// the shape. What is written becomes the element at `(i, j)`; every
    /// other element stays.
    pub fn get_mut(&mut self, i: usize, j: usize) -> (r: Option<&mut T>)
        ensures
            r is Some <==> i < old(self).spec_rows() && j < old(self).spec_cols(),
            final(self).spec_rows() == old(self).spec_rows(),
            final(self).spec_cols() == old(self).spec_cols(),
            r matches Some(element) ==> *element == old(self).element(i, j)
                && final(self).spec_data() == old(self).spec_data().update(
                i * old(self).spec_cols() + j,
                *final(element),
            ),
            r is None ==> final(self).spec_data() == old(self).spec_data(),
    {
        proof {
            use_type_invariant(&*self);
        }
        match self.get_linear_index(i, j) {
            Some(index) => Some(&mut self.data[index]),
            None => None,
        }
    }

    /// Puts `value` at `(i, j)` and says so, or leaves the matrix as it is
    /// where the position is outside the shape.
    pub fn set(&mut self, i: usize, j: usize, value: T) -> (done: bool)
        ensures
            done <==> i < old(self).spec_rows() && j < old(self).spec_cols(),
            final(self).spec_rows() == old(self).spec_rows(),
            final(self).spec_cols() == old(self).spec_cols(),
            done ==> final(self).spec_data() == old(self).spec_data().update(
                i * old(self).spec_cols() + j,
                value,
            ),
            !done ==> final(self).spec_data() == old(self).spec_data(),
            forall|row: usize, col: usize|
                row < old(self).spec_rows() && col < old(self).spec_cols() ==>
                    #[trigger] final(self).element(row, col)
                    == if done && row == i && col == j {
                    value
                } else {
                    old(self).element(row, col)
                },
    {
        proof {
            use_type_invariant(&*self);
        }
        match self.get_linear_index(i, j) {
            Some(index) => {
                let ghost cols = self.cols as int;
                let ghost rows = self.rows as int;
                let ghost before = self.data@;
                self.data[index] = value;
                proof {
                    assert forall|row: usize, col: usize| row < rows && col < cols implies #[trigger]
                        self.element(row, col) == if row == i && col == j {
                        value
                    } else {
                        before[row * cols + col]
                    } by {
                        positions_do_not_overlap(row as int, col as int, i as int, j as int, cols);
                        position_is_inside(row as int, col as int, rows, cols);
                    }
                }
                true
            },
            None => false,
        }
    }
}

/// A position inside a shape has its place inside the row-major data.
proof fn position_is_inside(i: int, j: int, rows: int, cols: int)
    requires
        0 <= i < rows,
        0 <= j < cols,
    ensures
        0 <= i * cols + j < rows * cols,
{
    assert(i * cols + j < rows * cols) by (nonlinear_arith)
        requires
            0 <= i < rows,
            0 <= j < cols,
    ;
    assert(0 <= i * cols) by (nonlinear_arith)
        requires
            0 <= i,
            0 <= cols,
    ;
}

/// Two positions of one shape have the same place in the row-major data
/// only where they are the same position.
proof fn positions_do_not_overlap(i: int, j: int, other_i: int, other_j: int, cols: int)
    requires
        0 <= j < cols,
        0 <= other_j < cols,
        0 <= i,
        0 <= other_i,
    ensures
        i * cols + j == other_i * cols + other_j <==> i == other_i && j == other_j,
{
    if i < other_i {
        assert(i * cols + j < other_i * cols + other_j) by (nonlinear_arith)
            requires
                i < other_i,
                0 <= j < cols,
                0 <= other_j,
        ;
    } else if other_i < i {
        assert(other_i * cols + other_j < i * cols + j) by (nonlinear_arith)
            requires
                other_i < i,
                0 <= other_j < cols,
                0 <= j,
        ;
    }
}

impl<T: Clone> Clone for MockDenseMatrix<T> {
    fn clone(&self) -> (copy: Self)
        ensures
            copy.spec_rows() == self.spec_rows(),
            copy.spec_cols() == self.spec_cols(),
            copy.spec_data().len() == self.spec_data().len(),
            forall|k: int|
                0 <= k < self.spec_data().len() ==> cloned::<T>(
                    #[trigger] self.spec_data()[k],
                    copy.spec_data()[k],
                ),
    {
        proof {
            use_type_invariant(self);
        }
        MockDenseMatrix { data: self.data.clone(), rows: self.rows, cols: self.cols }
    }
}

impl<T: Copy> Matrix<T> for MockDenseMatrix<T> {
    open spec fn model(&self) -> MatrixView<T> {
        MatrixView::Dense {
            rows: self.spec_rows(),
            cols: self.spec_cols(),
            cells: |row: usize, col: usize| self.element(row, col),
        }
    }

    fn rows(&self) -> (r: usize) {
        self.rows
    }

    fn cols(&self) -> (c: usize) {
        self.cols
    }

    fn access(&self) -> (a: Access<'_, T>) {
        Access::Dense(self)
    }
}

impl<T: Copy> DenseAccess<T> for MockDenseMatrix<T> {
    open spec fn shape(&self) -> (usize, usize) {
        (self.spec_rows(), self.spec_cols())
    }

    open spec fn cell(&self, row: usize, col: usize) -> T {
        self.element(row, col)
    }

    fn fetch_single(&self, row: usize, col: usize) -> (value: T) {
        proof {
            use_type_invariant(self);
            position_is_inside(row as int, col as int, self.rows as int, self.cols as int);
        }
        let _len: usize = self.data.len();
        let index: usize = row * self.cols + col;
        self.data[index]
    }
}

impl<T: Copy> Matrix<T> for MockSparseMatrix<T> {
    open spec fn model(&self) -> MatrixView<T> {
        MatrixView::Sparse {
            rows: self.spec_rows(),
            cols: self.spec_cols(),
            triplets: self.spec_triplets(),
        }
    }

    fn rows(&self) -> (r: usize) {
        self.rows
    }

    fn cols(&self) -> (c: usize) {
        self.cols
    }

    fn access(&self) -> (a: Access<'_, T>) {
        Access::Sparse(self)
    }
}

impl<T: Copy> SparseAccess<T> for MockSparseMatrix<T> {
    open spec fn triplets(&self) -> Seq<(usize, usize, T)> {
        self.spec_triplets()
    }

    fn nnz(&self) -> (n: usize) {
        self.triplets.len()
    }

    fn fetch_triplets(&self) -> (triplets: Vec<(usize, usize, T)>) {
        let mut triplets: Vec<(usize, usize, T)> = Vec::new();
        let n: usize = self.triplets.len();
        let mut k: usize = 0;
        while k < n
            invariant
                k <= n,
                n == self.triplets@.len(),
                triplets@ == self.triplets@.take(k as int),
            decreases n - k,
        {
            triplets.push(self.triplets[k]);
            assert(self.triplets@.take(k + 1) =~= self.triplets@.take(k as int).push(
                self.triplets@[k as int],
            ));
            k += 1;
        }
        assert(self.triplets@.take(n as int) =~= self.triplets@);
        triplets
    }
}

/// The range of the values that the matrices of tests are filled with.
pub fn i64_range() -> (range: Range<i64>)
    ensures
        range.start == -100,
        range.end == 100,
{
    -100i64..100
}

/// Among triplets of which no two sit at one position, the value of a
/// position is that of the triplet there.
pub proof fn entry_gives_sparse_value<T>(
    triplets: Seq<(usize, usize, T)>,
    rows: usize,
    cols: usize,
    k: int,
    zero: T,
)
    requires
        well_formed(triplets, rows, cols),
        0 <= k < triplets.len(),
    ensures
        sparse_value(triplets, triplets[k].0, triplets[k].1, zero) == triplets[k].2,
{
    let row = triplets[k].0;
    let col = triplets[k].1;
    assert(is_entry_at(triplets, k, row, col));
    let chosen = choose|e: int| is_entry_at(triplets, e, row, col);
    if chosen < k {
        assert(same_position(triplets, chosen, k));
        assert(violation_at(triplets, rows, cols, k));
    } else if k < chosen {
        assert(same_position(triplets, k, chosen));
        assert(violation_at(triplets, rows, cols, chosen));
    }
}

/// Triplets in order, written one after the other into a matrix of zeros,
/// leave at every position the value that the sparse matrix has there.
pub proof fn written_value_is_sparse_value<T>(
    triplets: Seq<(usize, usize, T)>,
    rows: usize,
    cols: usize,
    row: usize,
    col: usize,
    zero: T,
)
    requires
        well_formed(triplets, rows, cols),
    ensures
        last_value_at(triplets, row, col, zero) == sparse_value(triplets, row, col, zero),
    decreases triplets.len(),
{
    if triplets.len() > 0 {
        let last = triplets.len() - 1;
        if triplets[last].0 == row && triplets[last].1 == col {
            entry_gives_sparse_value(triplets, rows, cols, last, zero);
        } else {
            let shorter = triplets.drop_last();
            assert forall|k: int| 0 <= k < shorter.len() implies !violation_at(
                shorter,
                rows,
                cols,
                k,
            ) by {
                assert(!violation_at(triplets, rows, cols, k));
                if violation_at(shorter, rows, cols, k) {
                    let j = choose|j: int| same_position(shorter, j, k);
                    assert(same_position(triplets, j, k));
                }
            }
            written_value_is_sparse_value(shorter, rows, cols, row, col, zero);
            if has_entry(triplets, row, col) {
                let k = choose|k: int| is_entry_at(triplets, k, row, col);
                assert(is_entry_at(shorter, k, row, col));
                entry_gives_sparse_value(triplets, rows, cols, k, zero);
                entry_gives_sparse_value(shorter, rows, cols, k, zero);
            } else {
                if has_entry(shorter, row, col) {
                    let k = choose|k: int| is_entry_at(shorter, k, row, col);
                    assert(is_entry_at(triplets, k, row, col));
                }
            }
        }
    }
}

/// The dense matrix that a sparse matrix with its triplets in order is
/// turned into is the dense form of the sparse matrix.
pub proof fn turned_dense_is_dense_form<T: Copy>(
    sparse: MockSparseMatrix<T>,
    dense: MockDenseMatrix<T>,
    zero: T,
)
    requires
        !has_violation(sparse.model()),
        dense.holds_written(sparse.spec_triplets(), sparse.spec_rows(), sparse.spec_cols(), zero),
    ensures
        is_dense_form(dense.model(), sparse.model(), zero),
{
    let dm = dense.model();
    assert forall|row: usize, col: usize| dm.in_bounds(row, col) implies #[trigger] (
    dm->Dense_cells)(row, col) == sparse_value(sparse.spec_triplets(), row, col, zero) by {
        written_value_is_sparse_value(
            sparse.spec_triplets(),
            sparse.spec_rows(),
            sparse.spec_cols(),
            row,
            col,
            zero,
        );
        assert(dense.element(row, col) == last_value_at(sparse.spec_triplets(), row, col, zero));
    }
}

} // verus!
