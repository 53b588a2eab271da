//! Elementwise comparison of matrices and scalars, with a report of every
//! position at which the two operands differ.
//!
//! A matrix type shows its shape and its elements through the traits of
//! [`access`], as a dense matrix or as the triplets of a sparse one. A
//! comparator of [`comparators`] decides whether two elements match.
//! [`compare_matrices`] compares two matrices of either kind and returns
//! success or a [`MatrixComparisonFailure`]: the two shapes where they
//! differ, a sparse entry that is out of bounds or repeated, or every
//! mismatch by `(row, col)` ascending. [`compare_scalars`] does the same for
//! two scalars.
//!
//! What the outcome of a comparison is stands in [`comparison_spec`]; what
//! holds of every comparison, in [`laws`].

pub mod access;
pub mod comparator_laws;
pub mod comparators;
pub mod comparison_failure;
pub mod comparison_spec;
pub mod key_order;
pub mod laws;
pub mod matrix_comparison;
pub mod mock;
pub mod report;
pub mod scalar_comparison;
pub mod sparse_map;
pub mod ulp;

pub use access::{Access, DenseAccess, Matrix, MatrixView, SparseAccess};
pub use comparison_failure::{
    Coordinate, DimensionMismatch, ElementsMismatch, ElementsMismatchView, Entry,
    MatrixComparisonFailure, MatrixComparisonFailureView, MatrixElementComparisonFailure,
};
pub use matrix_comparison::{compare_matrices, compare_matrices_with_zero};
pub use scalar_comparison::{compare_scalars, ScalarComparisonFailure};
