use matrixcompare::comparators::{
    AbsoluteElementwiseComparator, AbsoluteError, ExactElementwiseComparator, ExactError, UlpError,
};
use matrixcompare::mock::{MockDenseMatrix, MockSparseMatrix};
use matrixcompare::report::{append_decimal, ErrorText, MAX_MISMATCH_REPORTS};
use matrixcompare::ulp::UlpComparisonResult;
use matrixcompare::{
    compare_matrices, compare_scalars, DimensionMismatch, ElementsMismatch, Entry,
    MatrixElementComparisonFailure,
};

#[test]
fn mismatched_elements() {
    let a = MockDenseMatrix::from_row_major(2, 3, vec![1, 2, 3, 4, 5, 6]);
    let b = MockDenseMatrix::from_row_major(2, 3, vec![1, 2, 9, 5, 4, 6]);

    let err = compare_matrices(&a, &b, &ExactElementwiseComparator).unwrap_err();
    let err_string = err.to_text();

    println!("{}", err_string);
    assert_eq!(
        err_string,
        r"Matrices X (left) and Y (right) have 3 mismatched element pairs.
The mismatched elements are listed below, in the format
(row, col): x = X[[row, col]], y = Y[[row, col]].

 (0, 2): x = 3, y = 9.
 (1, 0): x = 4, y = 5.
 (1, 1): x = 5, y = 4.

Comparison criterion: exact equality x == y."
    );
}

#[test]
fn mismatched_elements_abs_f64() {
    let a = MockDenseMatrix::from_row_major(2, 3, vec![1.0, 2.0, 3.0, 4.0, 5.0, 6.0]);
    let b = MockDenseMatrix::from_row_major(2, 3, vec![1.0, 2.0, 9.0, 5.0, 4.0, 6.0]);

    let err = compare_matrices(&a, &b, &AbsoluteElementwiseComparator { tol: 1e-12 }).unwrap_err();
    let err_string = err.to_text();

    println!("{}", err_string);
    assert_eq!(
        err_string,
        r"Matrices X (left) and Y (right) have 3 mismatched element pairs.
The mismatched elements are listed below, in the format
(row, col): x = X[[row, col]], y = Y[[row, col]].

 (0, 2): x = 3, y = 9. Absolute error: 6.
 (1, 0): x = 4, y = 5. Absolute error: 1.
 (1, 1): x = 5, y = 4. Absolute error: 1.

Comparison criterion: absolute difference, |x - y| <= 0.000000000001."
    );
}

#[test]
fn mismatched_dimensions() {
    let a = MockDenseMatrix::from_row_major(2, 2, vec![1, 2, 4, 5]);
    let b = MockDenseMatrix::from_row_major(2, 3, vec![1, 2, 9, 5, 4, 6]);

    let err = compare_matrices(&a, &b, &ExactElementwiseComparator).unwrap_err();
    let err_string = err.to_text();

    println!("{}", err_string);
    assert_eq!(
        err_string,
        r"Dimensions of matrices X (left) and Y (right) do not match.
 dim(X) = 2 x 2
 dim(Y) = 2 x 3"
    );
}

#[test]
fn duplicate_entry_left() {
    let a = MockSparseMatrix::from_triplets(3, 3, vec![(1, 0, 2), (1, 0, 2)]);
    let b = MockSparseMatrix::from_triplets(3, 3, vec![]);

    let err = compare_matrices(&a, &b, &ExactElementwiseComparator).unwrap_err();
    let err_string = err.to_text();

    println!("{}", err_string);
    assert_eq!(
        err_string,
        r"At least one duplicate sparse entry detected. Example: Left(1, 0)."
    );
}

#[test]
fn duplicate_entry_right() {
    let a = MockSparseMatrix::from_triplets(3, 3, vec![]);
    let b = MockSparseMatrix::from_triplets(3, 3, vec![(1, 0, 2), (1, 0, 2)]);

    let err = compare_matrices(&a, &b, &ExactElementwiseComparator).unwrap_err();
    let err_string = err.to_text();

    println!("{}", err_string);
    assert_eq!(
        err_string,
        r"At least one duplicate sparse entry detected. Example: Right(1, 0)."
    );
}

#[test]
fn out_of_bounds_left() {
    let a = MockSparseMatrix::from_triplets(3, 3, vec![(5, 0, 2), (1, 0, 2)]);
    let b = MockSparseMatrix::from_triplets(3, 3, vec![]);

    let err = compare_matrices(&a, &b, &ExactElementwiseComparator).unwrap_err();
    let err_string = err.to_text();

    println!("{}", err_string);
    assert_eq!(
        err_string,
        r"At least one sparse entry is out of bounds. Example: Left(5, 0)."
    );
}

#[test]
fn out_of_bounds_right() {
    let a = MockSparseMatrix::from_triplets(3, 3, vec![]);
    let b = MockSparseMatrix::from_triplets(3, 3, vec![(5, 0, 2), (1, 0, 2)]);

    let err = compare_matrices(&a, &b, &ExactElementwiseComparator).unwrap_err();
    let err_string = err.to_text();

    println!("{}", err_string);
    assert_eq!(
        err_string,
        r"At least one sparse entry is out of bounds. Example: Right(5, 0)."
    );
}

#[test]
fn numbers_are_written_in_decimal() {
    for (n, expected) in [
        (0usize, "0"),
        (7, "7"),
        (9, "9"),
        (10, "10"),
        (12, "12"),
        (99, "99"),
        (100, "100"),
        (1234567890, "1234567890"),
        (usize::MAX, "18446744073709551615"),
    ] {
        if n == usize::MAX && usize::MAX as u128 != u64::MAX as u128 {
            continue;
        }
        let mut text = String::from("n = ");
        append_decimal(&mut text, n);
        assert_eq!(text, format!("n = {}", expected));
        assert_eq!(text, format!("n = {}", n));
    }
}

#[test]
fn entries_and_shapes_in_words() {
    assert_eq!(Entry::Left((10, 203)).to_text(), "Left(10, 203)");
    assert_eq!(Entry::Right((0, 9)).to_text(), "Right(0, 9)");
    assert_eq!(
        DimensionMismatch { dim_left: (10, 0), dim_right: (7, 123) }.to_text(),
        "Dimensions of matrices X (left) and Y (right) do not match.\n dim(X) = 10 x 0\n dim(Y) = 7 x 123"
    );
}

#[test]
fn errors_in_words() {
    assert_eq!(ExactError.to_text(), "");
    assert_eq!(AbsoluteError(25).to_text(), "Absolute error: 25.");
    assert_eq!(AbsoluteError(0.5).to_text(), "Absolute error: 0.5.");
    assert_eq!(UlpError(UlpComparisonResult::Difference(120)).to_text(), "Difference: 120 ULP.");
    assert_eq!(
        UlpError(UlpComparisonResult::IncompatibleSigns).to_text(),
        "Numbers have incompatible signs."
    );
    assert_eq!(UlpError(UlpComparisonResult::Nan).to_text(), "");
    assert_eq!(UlpError(UlpComparisonResult::ExactMatch).to_text(), "");
}

#[test]
fn one_mismatch_in_words() {
    let failure =
        MatrixElementComparisonFailure { left: 3, right: -9, error: ExactError, row: 10, col: 2 };
    assert_eq!(failure.to_text(), "(10, 2): x = 3, y = -9.");
    let failure = MatrixElementComparisonFailure {
        left: 1.5,
        right: 2.0,
        error: AbsoluteError(0.5),
        row: 0,
        col: 11,
    };
    assert_eq!(failure.to_text(), "(0, 11): x = 1.5, y = 2. Absolute error: 0.5.");
}

fn report_of(count: usize) -> String {
    let mismatches = (0..count)
        .map(|k| MatrixElementComparisonFailure {
            left: k,
            right: k + 1,
            error: ExactError,
            row: k / 5,
            col: k % 5,
        })
        .collect();
    ElementsMismatch { comparator_description: String::from("none."), mismatches }.to_text()
}

#[test]
fn a_report_shows_at_most_twelve_mismatches() {
    assert_eq!(MAX_MISMATCH_REPORTS, 12);

    let twelve = report_of(12);
    assert_eq!(twelve.lines().filter(|line| line.starts_with(" (")).count(), 12);
    assert!(!twelve.contains("not shown"));
    assert!(twelve.starts_with("Matrices X (left) and Y (right) have 12 mismatched element pairs.\n"));
    assert!(twelve.ends_with(" (2, 1): x = 11, y = 12.\n\nComparison criterion: none."));

    let thirteen = report_of(13);
    assert_eq!(thirteen.lines().filter(|line| line.starts_with(" (")).count(), 12);
    assert!(thirteen.starts_with("Matrices X (left) and Y (right) have 13 mismatched element pairs.\n"));
    assert!(thirteen.ends_with(
        " (2, 1): x = 11, y = 12.\n ... (1 mismatching elements not shown)\n\nComparison criterion: none."
    ));

    let many = report_of(40);
    assert_eq!(many.lines().filter(|line| line.starts_with(" (")).count(), 12);
    assert!(many.contains("\n ... (28 mismatching elements not shown)\n"));
}

#[test]
fn a_report_of_one_mismatch_in_full() {
    assert_eq!(
        report_of(1),
        "Matrices X (left) and Y (right) have 1 mismatched element pairs.\nThe mismatched elements are listed below, in the format\n(row, col): x = X[[row, col]], y = Y[[row, col]].\n\n (0, 0): x = 0, y = 1.\n\nComparison criterion: none."
    );
}

#[test]
fn scalar_failure_in_words() {
    let failure = compare_scalars(&3, &5, AbsoluteElementwiseComparator { tol: 1 }).unwrap_err();
    assert_eq!(
        failure.to_text(),
        "Scalars x and y do not compare equal.\n\nx = 3, y = 5. Absolute error: 2.\n\nComparison criterion: absolute difference, |x - y| <= 1.\n"
    );
}
