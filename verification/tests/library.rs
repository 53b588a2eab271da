use matrixcompare::comparators::{ElementwiseComparator, ExactElementwiseComparator, ExactError};
use matrixcompare::key_order::{ascending_keys, merge_ascending, triplet_keys};
use matrixcompare::matrix_comparison::{compare_dense_dense, compare_dense_sparse, compare_sparse_sparse};
use matrixcompare::mock::{i64_range, MockDenseMatrix, MockSparseMatrix};
use matrixcompare::sparse_map::{
    coordinate_key, key_coordinate, try_build_sparse_hash_map, HashMapBuildError,
};
use matrixcompare::{
    Access, DenseAccess, DimensionMismatch, ElementsMismatch, Entry, Matrix,
    MatrixComparisonFailure, MatrixElementComparisonFailure, SparseAccess,
};

#[test]
fn validator_builds_the_map_of_triplets_in_order() {
    let map = try_build_sparse_hash_map(3, 4, &[(0, 1, 'a'), (2, 3, 'b'), (1, 0, 'c')]).unwrap();
    assert_eq!(map.len(), 3);
    assert_eq!(map.get(&coordinate_key(0, 1)), Some(&'a'));
    assert_eq!(map.get(&coordinate_key(2, 3)), Some(&'b'));
    assert_eq!(map.get(&coordinate_key(1, 0)), Some(&'c'));
    assert_eq!(map.get(&coordinate_key(0, 0)), None);
    let empty: [(usize, usize, u8); 0] = [];
    assert_eq!(try_build_sparse_hash_map(0, 0, &empty).unwrap().len(), 0);
}

#[test]
fn validator_reports_the_first_violation() {
    assert_eq!(
        try_build_sparse_hash_map(3, 3, &[(5, 0, 2), (1, 0, 2)]),
        Err(HashMapBuildError::OutOfBoundsCoord((5, 0)))
    );
    assert_eq!(
        try_build_sparse_hash_map(3, 3, &[(1, 0, 2), (1, 0, 2)]),
        Err(HashMapBuildError::DuplicateCoord((1, 0)))
    );
    assert_eq!(
        try_build_sparse_hash_map(3, 3, &[(1, 0, 2), (1, 0, 3), (3, 0, 1)]),
        Err(HashMapBuildError::DuplicateCoord((1, 0)))
    );
    assert_eq!(
        try_build_sparse_hash_map(3, 3, &[(1, 0, 2), (0, 3, 1), (1, 0, 3)]),
        Err(HashMapBuildError::OutOfBoundsCoord((0, 3)))
    );
    // Out of bounds and repeated: out of bounds comes first.
    assert_eq!(
        try_build_sparse_hash_map(3, 3, &[(3, 3, 2), (3, 3, 2)]),
        Err(HashMapBuildError::OutOfBoundsCoord((3, 3)))
    );
    // A row that equals the number of rows is outside, so is such a column.
    assert_eq!(
        try_build_sparse_hash_map(3, 2, &[(3, 0, 2)]),
        Err(HashMapBuildError::OutOfBoundsCoord((3, 0)))
    );
    assert_eq!(
        try_build_sparse_hash_map(3, 2, &[(2, 2, 2)]),
        Err(HashMapBuildError::OutOfBoundsCoord((2, 2)))
    );
    assert!(try_build_sparse_hash_map(3, 2, &[(2, 1, 2)]).is_ok());
}

#[test]
fn keys_follow_the_positions_row_by_row() {
    assert_eq!(coordinate_key(0, 0), 0);
    assert_eq!(coordinate_key(0, 5), 5);
    assert_eq!(coordinate_key(1, 0), 1u128 << 64);
    assert_eq!(coordinate_key(3, 7), (3u128 << 64) + 7);
    assert!(coordinate_key(0, usize::MAX) < coordinate_key(1, 0));
    assert!(coordinate_key(2, 9) < coordinate_key(2, 10));
    for coord in [(0, 0), (1, 2), (usize::MAX, 0), (17, usize::MAX), (usize::MAX, usize::MAX)] {
        assert_eq!(key_coordinate(coordinate_key(coord.0, coord.1)), coord);
    }
    assert_eq!(
        triplet_keys(&[(1, 2, 'x'), (0, 3, 'y')]),
        vec![(1u128 << 64) + 2, 3]
    );
}

#[test]
fn keys_are_put_in_ascending_order_each_once() {
    assert_eq!(ascending_keys(&vec![]), Vec::<u128>::new());
    assert_eq!(ascending_keys(&vec![4]), vec![4]);
    assert_eq!(ascending_keys(&vec![5, 3, 9, 3, 1, 5, 5, 0]), vec![0, 1, 3, 5, 9]);
    assert_eq!(ascending_keys(&vec![2, 2, 2]), vec![2]);
    assert_eq!(ascending_keys(&vec![u128::MAX, 0, 7]), vec![0, 7, u128::MAX]);
    assert_eq!(merge_ascending(&vec![1, 4, 6], &vec![2, 4, 9, 10]), vec![1, 2, 4, 6, 9, 10]);
    assert_eq!(merge_ascending(&vec![], &vec![3]), vec![3]);
    assert_eq!(merge_ascending(&vec![3], &vec![]), vec![3]);
    let mut state: u64 = 5;
    for _ in 0..100 {
        let keys: Vec<u128> = (0..state % 40)
            .map(|_| {
                state = state.wrapping_mul(6364136223846793005).wrapping_add(1442695040888963407);
                ((state >> 33) % 25) as u128
            })
            .collect();
        let mut expected = keys.clone();
        expected.sort();
        expected.dedup();
        assert_eq!(ascending_keys(&keys), expected);
    }
}

#[test]
fn reverse_swaps_the_two_sides() {
    let failure = MatrixElementComparisonFailure { left: 1, right: 2, error: 'e', row: 3, col: 4 };
    assert_eq!(
        failure.reverse(),
        MatrixElementComparisonFailure { left: 2, right: 1, error: 'e', row: 3, col: 4 }
    );
    let dims = DimensionMismatch { dim_left: (1, 2), dim_right: (3, 4) };
    assert_eq!(dims.reverse(), DimensionMismatch { dim_left: (3, 4), dim_right: (1, 2) });
    assert_eq!(Entry::Left((1, 2)).reverse(), Entry::Right((1, 2)));
    assert_eq!(Entry::Right((1, 2)).reverse(), Entry::Left((1, 2)));

    let elements = ElementsMismatch {
        comparator_description: String::from("words"),
        mismatches: vec![
            MatrixElementComparisonFailure { left: 1, right: 2, error: 'a', row: 0, col: 1 },
            MatrixElementComparisonFailure { left: 3, right: 4, error: 'b', row: 1, col: 0 },
            MatrixElementComparisonFailure { left: 5, right: 6, error: 'c', row: 1, col: 1 },
        ],
    };
    let reversed = ElementsMismatch {
        comparator_description: String::from("words"),
        mismatches: vec![
            MatrixElementComparisonFailure { left: 2, right: 1, error: 'a', row: 0, col: 1 },
            MatrixElementComparisonFailure { left: 4, right: 3, error: 'b', row: 1, col: 0 },
            MatrixElementComparisonFailure { left: 6, right: 5, error: 'c', row: 1, col: 1 },
        ],
    };
    assert_eq!(elements.clone().reverse(), reversed);
    assert_eq!(elements.clone().reverse().reverse(), elements);

    type Failure = MatrixComparisonFailure<i32, char>;
    assert_eq!(
        Failure::MismatchedDimensions(dims).reverse(),
        Failure::MismatchedDimensions(dims.reverse())
    );
    assert_eq!(
        Failure::MismatchedElements(elements).reverse(),
        Failure::MismatchedElements(reversed)
    );
    assert_eq!(
        Failure::SparseEntryOutOfBounds(Entry::Left((5, 0))).reverse(),
        Failure::SparseEntryOutOfBounds(Entry::Right((5, 0)))
    );
    // A repeated entry stays a repeated entry on the other side.
    assert_eq!(
        Failure::DuplicateSparseEntry(Entry::Right((1, 0))).reverse(),
        Failure::DuplicateSparseEntry(Entry::Left((1, 0)))
    );
}

#[test]
fn mock_dense_matrix_holds_its_elements_row_by_row() {
    let mut m = MockDenseMatrix::from_row_major(2, 3, vec![1, 2, 3, 4, 5, 6]);
    assert_eq!(Matrix::rows(&m), 2);
    assert_eq!(Matrix::cols(&m), 3);
    assert_eq!(m.get(0, 0), Some(&1));
    assert_eq!(m.get(0, 2), Some(&3));
    assert_eq!(m.get(1, 0), Some(&4));
    assert_eq!(m.get(1, 2), Some(&6));
    assert_eq!(m.get(2, 0), None);
    assert_eq!(m.get(0, 3), None);
    assert_eq!(m.fetch_single(1, 1), 5);
    assert!(matches!(m.access(), Access::Dense(_)));

    *m.get_mut(1, 1).unwrap() = 50;
    assert_eq!(m.get(1, 1), Some(&50));
    assert_eq!(m.get(1, 0), Some(&4));
    assert!(m.get_mut(2, 1).is_none());
    assert!(m.get_mut(1, 3).is_none());

    assert!(m.set(0, 2, 30));
    assert!(!m.set(0, 3, 31));
    assert!(!m.set(2, 0, 32));
    assert_eq!(m.get(0, 2), Some(&30));
    let copy = m.clone();
    for i in 0..2 {
        for j in 0..3 {
            assert_eq!(copy.get(i, j), m.get(i, j));
        }
    }

    let empty = MockDenseMatrix::<u8>::from_row_major(0, 4, vec![]);
    assert_eq!(empty.get(0, 0), None);
    assert_eq!((Matrix::rows(&empty), Matrix::cols(&empty)), (0, 4));
}

#[test]
fn mock_sparse_matrix_keeps_its_triplets() {
    let triplets = vec![(5, 0, 2), (1, 0, 2), (1, 0, 3)];
    let m = MockSparseMatrix::from_triplets(3, 4, triplets.clone());
    assert_eq!(Matrix::rows(&m), 3);
    assert_eq!(Matrix::cols(&m), 4);
    assert_eq!(m.nnz(), 3);
    assert_eq!(m.fetch_triplets(), triplets);
    assert!(matches!(m.access(), Access::Sparse(_)));
    assert_eq!((&m).nnz(), 3);
    assert_eq!(Matrix::rows(&&m), 3);
    assert_eq!(m.take_triplets(), triplets);
}

#[test]
fn mock_sparse_matrix_turns_dense() {
    let m = MockSparseMatrix::from_triplets(2, 3, vec![(1, 2, 6), (0, 1, -3)]);
    let d = m.to_dense().unwrap();
    let found: Vec<i32> =
        (0..2).flat_map(|i| (0..3).map(move |j| (i, j))).map(|(i, j)| *d.get(i, j).unwrap()).collect();
    assert_eq!(found, vec![0, -3, 0, 0, 0, 6]);

    // A later triplet overwrites an earlier one at its position.
    let m = MockSparseMatrix::from_triplets(1, 2, vec![(0, 1, 4), (0, 1, 5)]);
    assert_eq!(m.to_dense().unwrap().get(0, 1), Some(&5));
    assert_eq!(m.to_dense_with_zero(9).unwrap().get(0, 0), Some(&9));

    // A triplet out of bounds leaves nothing.
    let m = MockSparseMatrix::from_triplets(2, 3, vec![(1, 2, 6), (2, 0, 1)]);
    assert!(m.to_dense().is_err());
    let m = MockSparseMatrix::from_triplets(2, 3, vec![(1, 3, 6)]);
    assert!(m.to_dense().is_err());

    let m = MockSparseMatrix::<i64>::from_triplets(0, 0, vec![]);
    assert!(m.to_dense().is_ok());
}

#[test]
fn the_range_of_test_values() {
    assert_eq!(i64_range(), -100i64..100);
}

#[test]
fn the_ways_of_comparing_can_be_called_one_by_one() {
    let comp = ExactElementwiseComparator;
    let description = <ExactElementwiseComparator as ElementwiseComparator<i32>>::description(&comp);
    let dense1 = MockDenseMatrix::from_row_major(2, 2, vec![1, 0, 0, 4]);
    let dense2 = MockDenseMatrix::from_row_major(2, 2, vec![1, 0, 3, 4]);
    let sparse = MockSparseMatrix::from_triplets(2, 2, vec![(1, 1, 4), (0, 0, 1)]);
    let other = MockSparseMatrix::from_triplets(2, 2, vec![(1, 0, 3), (1, 1, 4), (0, 0, 1)]);
    let mismatch = |left: i32, right: i32| {
        Err(MatrixComparisonFailure::MismatchedElements(ElementsMismatch {
            comparator_description: description.clone(),
            mismatches: vec![MatrixElementComparisonFailure {
                left,
                right,
                error: ExactError,
                row: 1,
                col: 0,
            }],
        }))
    };

    assert_eq!(compare_dense_dense(2, 2, &dense1, &dense1, &comp), Ok(()));
    assert_eq!(compare_dense_dense(2, 2, &dense1, &dense2, &comp), mismatch(0, 3));

    assert_eq!(compare_dense_sparse(2, 2, &dense1, &sparse, &comp, false, 0), Ok(()));
    assert_eq!(compare_dense_sparse(2, 2, &dense2, &sparse, &comp, false, 0), mismatch(3, 0));
    assert_eq!(compare_dense_sparse(2, 2, &dense2, &sparse, &comp, true, 0), mismatch(0, 3));
    // With three for zero the two differ where the dense matrix holds a zero.
    assert_eq!(
        compare_dense_sparse(2, 2, &dense2, &sparse, &comp, true, 3),
        Err(MatrixComparisonFailure::MismatchedElements(ElementsMismatch {
            comparator_description: description.clone(),
            mismatches: vec![MatrixElementComparisonFailure {
                left: 3,
                right: 0,
                error: ExactError,
                row: 0,
                col: 1,
            }],
        }))
    );

    assert_eq!(compare_sparse_sparse(2, 2, &sparse, &sparse, &comp, 0), Ok(()));
    assert_eq!(compare_sparse_sparse(2, 2, &sparse, &other, &comp, 0), mismatch(0, 3));
    assert_eq!(compare_sparse_sparse(2, 2, &other, &sparse, &comp, 0), mismatch(3, 0));
    // Between two sparse matrices a position without a triplet is not looked at.
    assert_eq!(compare_sparse_sparse(2, 2, &sparse, &sparse, &RejectsAll, 0).unwrap_err(),
        MatrixComparisonFailure::MismatchedElements(ElementsMismatch {
            comparator_description: String::from("rejects every pair."),
            mismatches: vec![
                MatrixElementComparisonFailure { left: 1, right: 1, error: (), row: 0, col: 0 },
                MatrixElementComparisonFailure { left: 4, right: 4, error: (), row: 1, col: 1 },
            ],
        }));
}

/// A comparator that accepts no pair.
struct RejectsAll;

impl ElementwiseComparator<i32> for RejectsAll {
    type Error = ();

    fn compare(&self, _x: &i32, _y: &i32) -> Result<(), ()> {
        Err(())
    }

    fn description(&self) -> String {
        String::from("rejects every pair.")
    }
}

#[test]
fn a_comparator_that_rejects_all_lists_every_position() {
    let dense = MockDenseMatrix::from_row_major(2, 2, vec![1, 2, 3, 4]);
    let failure = matrixcompare::compare_matrices(&dense, &dense, &RejectsAll).unwrap_err();
    match failure {
        MatrixComparisonFailure::MismatchedElements(elements) => {
            let positions: Vec<(usize, usize)> =
                elements.mismatches.iter().map(|m| (m.row, m.col)).collect();
            assert_eq!(positions, vec![(0, 0), (0, 1), (1, 0), (1, 1)]);
            assert_eq!(elements.comparator_description, "rejects every pair.");
        }
        _ => panic!("Unexpected variant"),
    }
}

#[test]
fn three_mismatches_are_listed_row_by_row() {
    let left = MockDenseMatrix::from_row_major(2, 3, vec![1, 2, 3, 4, 5, 6]);
    let right = MockDenseMatrix::from_row_major(2, 3, vec![1, 2, 9, 5, 4, 6]);
    let comp = ExactElementwiseComparator;
    let expected = MatrixComparisonFailure::MismatchedElements(ElementsMismatch {
        comparator_description: String::from("exact equality x == y."),
        mismatches: vec![
            MatrixElementComparisonFailure { left: 3, right: 9, error: ExactError, row: 0, col: 2 },
            MatrixElementComparisonFailure { left: 4, right: 5, error: ExactError, row: 1, col: 0 },
            MatrixElementComparisonFailure { left: 5, right: 4, error: ExactError, row: 1, col: 1 },
        ],
    });
    assert_eq!(matrixcompare::compare_matrices(&left, &right, &comp), Err(expected));
}

#[test]
fn an_entry_out_of_bounds_is_reported_with_its_side() {
    let a = MockSparseMatrix::from_triplets(3, 3, vec![(5, 0, 2), (1, 0, 2)]);
    let b = MockSparseMatrix::from_triplets(3, 3, vec![]);
    assert_eq!(
        matrixcompare::compare_matrices(&a, &b, &ExactElementwiseComparator),
        Err(MatrixComparisonFailure::SparseEntryOutOfBounds(Entry::Left((5, 0))))
    );
    assert_eq!(
        matrixcompare::compare_matrices(&b, &a, &ExactElementwiseComparator),
        Err(MatrixComparisonFailure::SparseEntryOutOfBounds(Entry::Right((5, 0))))
    );
}

#[test]
fn a_repeated_entry_is_reported_with_its_side() {
    let a = MockSparseMatrix::from_triplets(3, 3, vec![(1, 0, 2), (1, 0, 2)]);
    let b = MockSparseMatrix::from_triplets(3, 3, vec![]);
    assert_eq!(
        matrixcompare::compare_matrices(&a, &b, &ExactElementwiseComparator),
        Err(MatrixComparisonFailure::DuplicateSparseEntry(Entry::Left((1, 0))))
    );
    assert_eq!(
        matrixcompare::compare_matrices(&b, &a, &ExactElementwiseComparator),
        Err(MatrixComparisonFailure::DuplicateSparseEntry(Entry::Right((1, 0))))
    );
}

#[test]
fn shapes_that_differ_are_reported_before_anything_else() {
    let dense = MockDenseMatrix::from_row_major(2, 2, vec![1, 2, 4, 5]);
    let sparse = MockSparseMatrix::from_triplets(3, 2, vec![(9, 9, 1)]);
    let other = MockSparseMatrix::from_triplets(2, 3, vec![(9, 9, 1), (9, 9, 1)]);
    let dims = |dim_left, dim_right| {
        Err(MatrixComparisonFailure::MismatchedDimensions(DimensionMismatch { dim_left, dim_right }))
    };
    assert_eq!(matrixcompare::compare_matrices(&dense, &sparse, &RejectsAll), dims((2, 2), (3, 2)));
    assert_eq!(matrixcompare::compare_matrices(&sparse, &dense, &RejectsAll), dims((3, 2), (2, 2)));
    assert_eq!(matrixcompare::compare_matrices(&sparse, &other, &RejectsAll), dims((3, 2), (2, 3)));
    assert_eq!(matrixcompare::compare_matrices(&other, &other, &RejectsAll),
        Err(MatrixComparisonFailure::SparseEntryOutOfBounds(Entry::Left((9, 9)))));
}
