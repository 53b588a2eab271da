use matrixcompare::comparators::{
    AbsoluteElementwiseComparator, ElementwiseComparator, ExactElementwiseComparator, ExactError,
    FloatElementwiseComparator, UlpElementwiseComparator, DEFAULT_MAX_ULP,
};
use matrixcompare::mock::MockDenseMatrix;
use matrixcompare::ulp::{ulp_diff_binary64, Ulp, UlpComparisonResult};
use matrixcompare::{
    compare_matrices, DimensionMismatch, ElementsMismatch, MatrixComparisonFailure,
    MatrixElementComparisonFailure,
};
use quickcheck::{QuickCheck, TestResult};
use std::fmt;
use std::ops::{Add, Sub};

/// A 64-bit float that knows its distance in units in the last place.
#[derive(Debug, Copy, Clone, PartialEq, PartialOrd)]
struct F(f64);

impl Add for F {
    type Output = F;
    fn add(self, other: F) -> F {
        F(self.0 + other.0)
    }
}

impl Sub for F {
    type Output = F;
    fn sub(self, other: F) -> F {
        F(self.0 - other.0)
    }
}

impl num::Zero for F {
    fn zero() -> F {
        F(0.0)
    }

    fn is_zero(&self) -> bool {
        self.0 == 0.0
    }
}

impl fmt::Display for F {
    fn fmt(&self, f: &mut fmt::Formatter) -> fmt::Result {
        fmt::Display::fmt(&self.0, f)
    }
}

impl Ulp for F {
    fn ulp_diff(a: &Self, b: &Self) -> UlpComparisonResult {
        ulp_diff_binary64(a.0.to_bits(), b.0.to_bits())
    }
}

fn floats(rows: usize, cols: usize, data: Vec<f64>) -> MockDenseMatrix<F> {
    MockDenseMatrix::from_row_major(rows, cols, data.into_iter().map(F).collect())
}

/// Four times the machine epsilon, the absolute tolerance of the float
/// comparator unless told otherwise.
fn float_comparator() -> FloatElementwiseComparator<F> {
    FloatElementwiseComparator::with_tolerances(F(4.0 * f64::EPSILON), DEFAULT_MAX_ULP)
}

#[test]
fn dense_matrix_comparison_property_incompatible_matrices_yield_dimension_mismatch() {
    fn property(m: usize, n: usize, p: usize, q: usize) -> TestResult {
        let (m, n, p, q) = (m % 7, n % 7, p % 7, q % 7);
        if m == p && n == q {
            return TestResult::discard();
        }

        // It does not actually matter which comparator we use here, but we need to pick one
        let comp = ExactElementwiseComparator;
        let ref x = MockDenseMatrix::from_row_major(m, n, vec![0; m * n]);
        let ref y = MockDenseMatrix::from_row_major(p, q, vec![0; p * q]);

        let expected = MatrixComparisonFailure::MismatchedDimensions(DimensionMismatch {
            dim_left: (m, n),
            dim_right: (p, q),
        });

        TestResult::from_bool(compare_matrices(x, y, &comp) == Err(expected))
    }
    QuickCheck::new().quickcheck(property as fn(usize, usize, usize, usize) -> TestResult);
}

#[test]
fn dense_matrix_comparison_property_matrix_matches_self() {
    fn property(m: usize, n: usize) -> bool {
        let (m, n) = (m % 7, n % 7);
        let comp = ExactElementwiseComparator;
        let ref x = MockDenseMatrix::from_row_major(m, n, vec![0; m * n]);

        compare_matrices(x, x, &comp).is_ok()
    }
    QuickCheck::new().quickcheck(property as fn(usize, usize) -> bool);
}

#[test]
fn dense_matrix_comparison_compare_matrices_reports_correct_mismatches() {
    let comp = ExactElementwiseComparator;
    let description =
        <ExactElementwiseComparator as ElementwiseComparator<usize>>::description(&comp);

    {
        // Single element matrices
        let ref x = MockDenseMatrix::from_row_major(1, 1, vec![1]);
        let ref y = MockDenseMatrix::from_row_major(1, 1, vec![2]);

        let expected = MatrixComparisonFailure::MismatchedElements(ElementsMismatch {
            comparator_description: description.clone(),
            mismatches: vec![MatrixElementComparisonFailure {
                left: 1,
                right: 2,
                error: ExactError,
                row: 0,
                col: 0,
            }],
        });

        assert_eq!(compare_matrices(x, y, &comp), Err(expected));
    }

    {
        // Mismatch in top-left and bottom-corner elements for a short matrix
        let ref x = MockDenseMatrix::from_row_major(2, 3, vec![0, 1, 2, 3, 4, 5]);
        let ref y = MockDenseMatrix::from_row_major(2, 3, vec![1, 1, 2, 3, 4, 6]);
        let mismatches = vec![
            MatrixElementComparisonFailure {
                left: 0,
                right: 1,
                error: ExactError,
                row: 0,
                col: 0,
            },
            MatrixElementComparisonFailure {
                left: 5,
                right: 6,
                error: ExactError,
                row: 1,
                col: 2,
            },
        ];

        let expected = MatrixComparisonFailure::MismatchedElements(ElementsMismatch {
            comparator_description: description.clone(),
            mismatches: mismatches,
        });

        assert_eq!(compare_matrices(x, y, &comp), Err(expected));
    }

    {
        // Mismatch in top-left and bottom-corner elements for a tall matrix
        let ref x = MockDenseMatrix::from_row_major(3, 2, vec![0, 1, 2, 3, 4, 5]);
        let ref y = MockDenseMatrix::from_row_major(3, 2, vec![1, 1, 2, 3, 4, 6]);
        let mismatches = vec![
            MatrixElementComparisonFailure {
                left: 0,
                right: 1,
                error: ExactError,
                row: 0,
                col: 0,
            },
            MatrixElementComparisonFailure {
                left: 5,
                right: 6,
                error: ExactError,
                row: 2,
                col: 1,
            },
        ];

        let expected = MatrixComparisonFailure::MismatchedElements(ElementsMismatch {
            comparator_description: description.clone(),
            mismatches: mismatches,
        });

        assert_eq!(compare_matrices(x, y, &comp), Err(expected));
    }

    {
        // Check some arbitrary elements
        let ref x = MockDenseMatrix::from_row_major(2, 4, vec![0, 1, 2, 3, 4, 5, 6, 7]);
        let ref y = MockDenseMatrix::from_row_major(2, 4, vec![0, 1, 3, 3, 4, 6, 6, 7]);

        let mismatches = vec![
            MatrixElementComparisonFailure {
                left: 2,
                right: 3,
                error: ExactError,
                row: 0,
                col: 2,
            },
            MatrixElementComparisonFailure {
                left: 5,
                right: 6,
                error: ExactError,
                row: 1,
                col: 1,
            },
        ];

        let expected = MatrixComparisonFailure::MismatchedElements(ElementsMismatch {
            comparator_description: description.clone(),
            mismatches: mismatches,
        });

        assert_eq!(compare_matrices(x, y, &comp), Err(expected));
    }
}

#[test]
pub fn dense_matrix_comparison_matrix_eq_absolute_compare_self_for_integer() {
    let x = MockDenseMatrix::from_row_major(2, 3, vec![1, 2, 3, 4, 5, 6]);
    assert_eq!(compare_matrices(&x, &x, &AbsoluteElementwiseComparator { tol: 0 }), Ok(()));
}

#[test]
pub fn dense_matrix_comparison_matrix_eq_absolute_compare_self_for_floating_point() {
    let x = MockDenseMatrix::from_row_major(2, 3, vec![1.0, 2.0, 3.0, 4.0, 5.0, 6.0]);
    assert_eq!(compare_matrices(&x, &x, &AbsoluteElementwiseComparator { tol: 1e-10 }), Ok(()));
}

#[test]
#[should_panic]
pub fn dense_matrix_comparison_matrix_eq_absolute_mismatched_floating_point_elements() {
    let x = MockDenseMatrix::from_row_major(2, 3, vec![1.00, 2.00, 3.00, 4.00, 5.00, 6.00]);
    let y = MockDenseMatrix::from_row_major(2, 3, vec![1.00, 2.01, 3.00, 3.99, 5.00, 6.00]);
    compare_matrices(&x, &y, &AbsoluteElementwiseComparator { tol: 1e-10 }).unwrap();
}

#[test]
pub fn dense_matrix_comparison_matrix_eq_exact_compare_self_for_integer() {
    let x = MockDenseMatrix::from_row_major(2, 3, vec![1, 2, 3, 4, 5, 6]);
    assert_eq!(compare_matrices(&x, &x, &ExactElementwiseComparator), Ok(()));
}

#[test]
pub fn dense_matrix_comparison_matrix_eq_exact_compare_self_for_floating_point() {
    let x = MockDenseMatrix::from_row_major(2, 3, vec![1.0, 2.0, 3.0, 4.0, 5.0, 6.0]);
    assert_eq!(compare_matrices(&x, &x, &ExactElementwiseComparator), Ok(()));
}

#[test]
pub fn dense_matrix_comparison_matrix_eq_ulp_compare_self() {
    let x = floats(2, 3, vec![1.0, 2.0, 3.0, 4.0, 5.0, 6.0]);
    assert_eq!(compare_matrices(&x, &x, &UlpElementwiseComparator { tol: 0 }), Ok(()));
}

#[test]
pub fn dense_matrix_comparison_matrix_eq_default_compare_self_for_floating_point() {
    let x = MockDenseMatrix::from_row_major(2, 3, vec![1.0, 2.0, 3.0, 4.0, 5.0, 6.0]);
    assert_eq!(compare_matrices(&x, &x, &ExactElementwiseComparator), Ok(()));
}

#[test]
pub fn dense_matrix_comparison_matrix_eq_default_compare_self_for_integer() {
    let x = MockDenseMatrix::from_row_major(2, 3, vec![1, 2, 3, 4, 5, 6]);
    assert_eq!(compare_matrices(&x, &x, &ExactElementwiseComparator), Ok(()));
}

#[test]
#[should_panic]
pub fn dense_matrix_comparison_matrix_eq_ulp_different_signs() {
    let x = floats(2, 3, vec![1.0, 2.0, 3.0, 4.0, 5.0, 6.0]);
    let y = floats(2, 3, vec![1.0, 2.0, -3.0, 4.0, 5.0, 6.0]);
    compare_matrices(&x, &y, &UlpElementwiseComparator { tol: 0 }).unwrap();
}

#[test]
#[should_panic]
pub fn dense_matrix_comparison_matrix_eq_ulp_nan() {
    let x = floats(2, 3, vec![1.0, 2.0, 3.0, 4.0, 5.0, 6.0]);
    let y = floats(2, 3, vec![1.0, 2.0, f64::NAN, 4.0, 5.0, 6.0]);
    compare_matrices(&x, &y, &UlpElementwiseComparator { tol: 0 }).unwrap();
}

#[test]
pub fn dense_matrix_comparison_matrix_eq_float_compare_self() {
    let x = floats(2, 3, vec![1.0, 2.0, 3.0, 4.0, 5.0, 6.0]);
    assert_eq!(compare_matrices(&x, &x, &float_comparator()), Ok(()));
}

#[test]
pub fn dense_matrix_comparison_matrix_eq_float_compare_self_with_eps() {
    let x = floats(2, 3, vec![1.0, 2.0, 3.0, 4.0, 5.0, 6.0]);
    assert_eq!(compare_matrices(&x, &x, &float_comparator().eps(F(1e-6))), Ok(()));
}

#[test]
pub fn dense_matrix_comparison_matrix_eq_float_compare_self_with_ulp() {
    let x = floats(2, 3, vec![1.0, 2.0, 3.0, 4.0, 5.0, 6.0]);
    assert_eq!(compare_matrices(&x, &x, &float_comparator().ulp(12)), Ok(()));
}

#[test]
pub fn dense_matrix_comparison_matrix_eq_float_compare_self_with_eps_and_ulp() {
    let x = floats(2, 3, vec![1.0, 2.0, 3.0, 4.0, 5.0, 6.0]);
    assert_eq!(compare_matrices(&x, &x, &float_comparator().eps(F(1e-6)).ulp(12)), Ok(()));
    assert_eq!(compare_matrices(&x, &x, &float_comparator().ulp(12).eps(F(1e-6))), Ok(()));
}

#[test]
pub fn dense_matrix_comparison_matrix_eq_pass_by_ref() {
    let x = floats(1, 1, vec![0.0f64]);

    // Make sure that we are able to call the comparison when the arguments
    // are references, and references to references.
    assert_eq!(compare_matrices(&x, &x, &ExactElementwiseComparator), Ok(()));
    assert_eq!(compare_matrices(&&x, &x, &ExactElementwiseComparator), Ok(()));
    assert_eq!(compare_matrices(&x, &x, &AbsoluteElementwiseComparator { tol: F(0.0) }), Ok(()));
    assert_eq!(compare_matrices(&x, &x, &UlpElementwiseComparator { tol: 0 }), Ok(()));
    assert_eq!(compare_matrices(&x, &x, &float_comparator()), Ok(()));
    assert_eq!(compare_matrices(&x, &x, &float_comparator().eps(F(0.0)).ulp(0)), Ok(()));
}

/// A small generator of numbers that looks random and is the same every time.
fn next_number(state: &mut u64) -> u64 {
    *state = state.wrapping_mul(6364136223846793005).wrapping_add(1442695040888963407);
    *state >> 33
}

fn dense_i64(rows: usize, cols: usize, state: &mut u64) -> MockDenseMatrix<i64> {
    let data = (0..rows * cols).map(|_| (next_number(state) % 5) as i64 - 2).collect();
    MockDenseMatrix::from_row_major(rows, cols, data)
}

#[test]
fn dense_dense_comparison_is_symmetric_for_compatible_matrices_i64() {
    let mut state = 17;
    for _ in 0..300 {
        let rows = (next_number(&mut state) % 5) as usize;
        let cols = (next_number(&mut state) % 5) as usize;
        let dense1 = dense_i64(rows, cols, &mut state);
        let dense2 = dense_i64(rows, cols, &mut state);
        let c = ExactElementwiseComparator;
        let result1 = compare_matrices(&dense1, &dense2, &c);
        let result2 = compare_matrices(&dense2, &dense1, &c);
        assert_eq!(result1.clone(), result2.clone().map_err(|err| err.reverse()));
        assert_eq!(result1.map_err(|err| err.reverse()), result2);
    }
}

#[test]
fn dense_dense_comparison_is_symmetric_for_all_matrices_i64() {
    let mut state = 4711;
    for _ in 0..300 {
        let dense1 = {
            let rows = (next_number(&mut state) % 5) as usize;
            let cols = (next_number(&mut state) % 5) as usize;
            dense_i64(rows, cols, &mut state)
        };
        let dense2 = {
            let rows = (next_number(&mut state) % 5) as usize;
            let cols = (next_number(&mut state) % 5) as usize;
            dense_i64(rows, cols, &mut state)
        };
        let c = AbsoluteElementwiseComparator { tol: 1 };
        let result1 = compare_matrices(&dense1, &dense2, &c);
        let result2 = compare_matrices(&dense2, &dense1, &c);
        assert_eq!(result1.clone(), result2.clone().map_err(|err| err.reverse()));
        assert_eq!(result1.map_err(|err| err.reverse()), result2);
    }
}

#[test]
fn dense_dense_mismatches_come_row_by_row() {
    let mut state = 99;
    for _ in 0..200 {
        let rows = (next_number(&mut state) % 6) as usize;
        let cols = (next_number(&mut state) % 6) as usize;
        let a = dense_i64(rows, cols, &mut state);
        let b = dense_i64(rows, cols, &mut state);
        match compare_matrices(&a, &b, &ExactElementwiseComparator) {
            Ok(()) => {
                for i in 0..rows {
                    for j in 0..cols {
                        assert_eq!(a.get(i, j), b.get(i, j));
                    }
                }
            }
            Err(MatrixComparisonFailure::MismatchedElements(elements)) => {
                let positions: Vec<(usize, usize)> =
                    elements.mismatches.iter().map(|m| (m.row, m.col)).collect();
                let mut expected = Vec::new();
                for i in 0..rows {
                    for j in 0..cols {
                        if a.get(i, j) != b.get(i, j) {
                            expected.push((i, j));
                        }
                    }
                }
                assert!(!expected.is_empty());
                assert_eq!(positions, expected);
                for m in &elements.mismatches {
                    assert_eq!(Some(&m.left), a.get(m.row, m.col));
                    assert_eq!(Some(&m.right), b.get(m.row, m.col));
                }
            }
            Err(other) => panic!("Unexpected failure: {:?}", other),
        }
    }
}
