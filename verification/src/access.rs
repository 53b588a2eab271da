//! How a matrix type shows its shape and its elements to the comparison.
//!
//! A matrix is either dense, with an element at every position of its shape,
//! or sparse, a list of `(row, col, value)` triplets over a declared shape.
//! Every position that a sparse matrix has no triplet for holds zero.

use vstd::prelude::*;

verus! {

/// A matrix as a mathematical value.
#[verifier::reject_recursive_types(T)]
pub enum MatrixView<T> {
    /// An element for every position; only those inside the shape matter.
    Dense { rows: usize, cols: usize, cells: spec_fn(usize, usize) -> T },
    /// The triplets as the matrix hands them out: in its order, and with
    /// whatever repeated or misplaced coordinates it holds.
    Sparse { rows: usize, cols: usize, triplets: Seq<(usize, usize, T)> },
}

impl<T> MatrixView<T> {
    pub open spec fn rows(self) -> usize {
        match self {
            MatrixView::Dense { rows, .. } => rows,
            MatrixView::Sparse { rows, .. } => rows,
        }
    }

    pub open spec fn cols(self) -> usize {
        match self {
            MatrixView::Dense { cols, .. } => cols,
            MatrixView::Sparse { cols, .. } => cols,
        }
    }

    /// `(rows, cols)`.
    pub open spec fn shape(self) -> (usize, usize) {
        (self.rows(), self.cols())
    }

    /// Whether `(row, col)` lies inside the shape.
    pub open spec fn in_bounds(self, row: usize, col: usize) -> bool {
        row < self.rows() && col < self.cols()
    }
}

/// Whether some triplet of `triplets` sits at `(row, col)`.
pub open spec fn has_entry<T>(triplets: Seq<(usize, usize, T)>, row: usize, col: usize) -> bool {
    exists|k: int| is_entry_at(triplets, k, row, col)
}

/// Whether the triplet of index `k` sits at `(row, col)`.
pub open spec fn is_entry_at<T>(
    triplets: Seq<(usize, usize, T)>,
    k: int,
    row: usize,
    col: usize,
) -> bool {
    0 <= k < triplets.len() && triplets[k].0 == row && triplets[k].1 == col
}

/// The value a list of triplets gives to `(row, col)`: that of a triplet
/// there, and `zero` where there is none.
pub open spec fn sparse_value<T>(
    triplets: Seq<(usize, usize, T)>,
    row: usize,
    col: usize,
    zero: T,
) -> T {
    if has_entry(triplets, row, col) {
        triplets[choose|k: int| is_entry_at(triplets, k, row, col)].2
    } else {
        zero
    }
}

/// The element of a matrix at `(row, col)`, where absent sparse entries are `zero`.
pub open spec fn value_at<T>(matrix: MatrixView<T>, row: usize, col: usize, zero: T) -> T {
    match matrix {
        MatrixView::Dense { cells, .. } => cells(row, col),
        MatrixView::Sparse { triplets, .. } => sparse_value(triplets, row, col, zero),
    }
}

/// Access to the elements of a matrix, by position or by triplets.
#[verifier::reject_recursive_types(T)]
pub enum Access<'a, T> {
    Dense(&'a dyn DenseAccess<T>),
    Sparse(&'a dyn SparseAccess<T>),
}

impl<'a, T> Access<'a, T> {
    /// Whether this access is one to the matrix `matrix`, and of its kind.
    pub open spec fn represents(self, matrix: MatrixView<T>) -> bool {
        match self {
            Access::Dense(dense) => {
                &&& matrix is Dense
                &&& dense.shape() == matrix.shape()
                &&& forall|row: usize, col: usize|
                    matrix.in_bounds(row, col) ==> #[trigger] dense.cell(row, col) == (
                    matrix->Dense_cells)(row, col)
            },
            Access::Sparse(sparse) => {
                &&& matrix is Sparse
                &&& sparse.triplets() == matrix->Sparse_triplets
            },
        }
    }
}

/// Access to a dense matrix.
pub trait DenseAccess<T> {
    /// `(rows, cols)`. Left open by a type that does not say what it is.
    open spec fn shape(&self) -> (usize, usize) {
        arbitrary()
    }

    /// The element at `(row, col)`. Left open by a type that does not say
    /// what it is.
    open spec fn cell(&self, row: usize, col: usize) -> T {
        arbitrary()
    }

    /// The element at `(row, col)`, a position inside the shape.
    fn fetch_single(&self, row: usize, col: usize) -> (value: T)
        requires
            row < self.shape().0,
            col < self.shape().1,
        ensures
            value == self.cell(row, col),
    ;
}

/// Access to a sparse matrix.
pub trait SparseAccess<T> {
    /// The triplets, in the order of the matrix. Left open by a type that
    /// does not say what they are.
    open spec fn triplets(&self) -> Seq<(usize, usize, T)> {
        arbitrary()
    }

    /// The number of triplets.
    fn nnz(&self) -> (n: usize)
        ensures
            n == self.triplets().len(),
    ;

    /// The triplets, in the order of the matrix.
    fn fetch_triplets(&self) -> (triplets: Vec<(usize, usize, T)>)
        ensures
            triplets@ == self.triplets(),
    ;
}

/// What every matrix offers: its shape, and access to its elements.
pub trait Matrix<T> {
    /// The matrix as a mathematical value. Left open by a type that does
    /// not say what it is.
    open spec fn model(&self) -> MatrixView<T> {
        arbitrary()
    }

    fn rows(&self) -> (r: usize)
        ensures
            r == self.model().rows(),
    ;

    fn cols(&self) -> (c: usize)
        ensures
            c == self.model().cols(),
    ;

    /// Dense or sparse access to this same matrix.
    fn access(&self) -> (a: Access<'_, T>)
        ensures
            a.represents(self.model()),
    ;
}

impl<T, X: Matrix<T>> Matrix<T> for &X {
    open spec fn model(&self) -> MatrixView<T> {
        (**self).model()
    }

    fn rows(&self) -> (r: usize) {
        X::rows(*self)
    }

    fn cols(&self) -> (c: usize) {
        X::cols(*self)
    }

    fn access(&self) -> (a: Access<'_, T>) {
        X::access(*self)
    }
}

impl<T, X: DenseAccess<T>> DenseAccess<T> for &X {
    open spec fn shape(&self) -> (usize, usize) {
        (**self).shape()
    }

    open spec fn cell(&self, row: usize, col: usize) -> T {
        (**self).cell(row, col)
    }

    fn fetch_single(&self, row: usize, col: usize) -> (value: T) {
        X::fetch_single(*self, row, col)
    }
}

impl<T, X: SparseAccess<T>> SparseAccess<T> for &X {
    open spec fn triplets(&self) -> Seq<(usize, usize, T)> {
        (**self).triplets()
    }

    fn nnz(&self) -> (n: usize) {
        X::nnz(*self)
    }

    fn fetch_triplets(&self) -> (triplets: Vec<(usize, usize, T)>) {
        X::fetch_triplets(*self)
    }
}

} // verus!
