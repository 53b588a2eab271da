//! From the triplets of a sparse matrix to a map from position to value, with
//! a check of the triplets on the way.
//!
//! The triplets are taken in their order. One whose position lies outside the
//! declared shape, or at which an earlier triplet already sits, is a
//! violation; the first violation met is the one reported. A triplet that is
//! both is reported as out of bounds.

use crate::access::{has_entry, is_entry_at, sparse_value};
use crate::comparison_failure::Coordinate;
use std::collections::HashMap;
use vstd::prelude::*;

verus! {

/// What is wrong with the first triplet that is not in order.
#[derive(Copy, Clone, Debug, PartialEq, Eq)]
pub enum HashMapBuildError {
    OutOfBoundsCoord(Coordinate),
    DuplicateCoord(Coordinate),
}

/// The key under which the map holds the position `(row, col)`: the row in
/// the upper 64 bits, the column in the lower ones. Keys are ordered as their
/// positions are, row by row.
pub open spec fn key_of(row: usize, col: usize) -> u128 {
    (row as int * 0x1_0000_0000_0000_0000 + col as int) as u128
}

/// The row of the position that `key` stands for.
pub open spec fn row_of(key: u128) -> usize {
    (key as int / 0x1_0000_0000_0000_0000) as usize
}

/// The column of the position that `key` stands for.
pub open spec fn col_of(key: u128) -> usize {
    (key as int % 0x1_0000_0000_0000_0000) as usize
}

/// A key gives back the position it was made of.
pub proof fn key_keeps_position(row: usize, col: usize)
    ensures
        row_of(key_of(row, col)) == row,
        col_of(key_of(row, col)) == col,
        key_of(row, col) as int == row as int * 0x1_0000_0000_0000_0000 + col as int,
{
}

/// Two positions with the same key are the same position.
pub proof fn key_is_injective(row_a: usize, col_a: usize, row_b: usize, col_b: usize)
    requires
        key_of(row_a, col_a) == key_of(row_b, col_b),
    ensures
        row_a == row_b,
        col_a == col_b,
{
    key_keeps_position(row_a, col_a);
    key_keeps_position(row_b, col_b);
}

/// The keys are ordered as their positions are, row by row.
pub proof fn key_order_is_row_major(row_a: usize, col_a: usize, row_b: usize, col_b: usize)
    ensures
        key_of(row_a, col_a) < key_of(row_b, col_b) <==> (row_a < row_b || (row_a == row_b && col_a
            < col_b)),
{
    key_keeps_position(row_a, col_a);
    key_keeps_position(row_b, col_b);
}

/// The key of the position `(row, col)`.
pub fn coordinate_key(row: usize, col: usize) -> (key: u128)
    ensures
        key == key_of(row, col),
{
    let high: u128 = row as u128;
    let low: u128 = col as u128;
    high * 0x1_0000_0000_0000_0000u128 + low
}

/// The position that `key` stands for.
pub fn key_coordinate(key: u128) -> (coord: Coordinate)
    requires
        key as int / 0x1_0000_0000_0000_0000 <= usize::MAX,
        key as int % 0x1_0000_0000_0000_0000 <= usize::MAX,
    ensures
        coord == (row_of(key), col_of(key)),
{
    let high: u128 = key / 0x1_0000_0000_0000_0000u128;
    let low: u128 = key % 0x1_0000_0000_0000_0000u128;
    (high as usize, low as usize)
}

/// The key of the triplet of index `k`.
pub open spec fn entry_key<T>(triplets: Seq<(usize, usize, T)>, k: int) -> u128 {
    key_of(triplets[k].0, triplets[k].1)
}

/// Whether the triplet of index `k` lies outside a `rows` by `cols` shape.
pub open spec fn out_of_bounds_at<T>(
    triplets: Seq<(usize, usize, T)>,
    rows: usize,
    cols: usize,
    k: int,
) -> bool {
    triplets[k].0 >= rows || triplets[k].1 >= cols
}

/// Whether an earlier triplet sits where the triplet of index `k` does.
pub open spec fn duplicate_at<T>(triplets: Seq<(usize, usize, T)>, k: int) -> bool {
    exists|j: int| same_position(triplets, j, k)
}

/// Whether the triplet of index `j` comes before that of index `k` and sits
/// at the same position.
pub open spec fn same_position<T>(triplets: Seq<(usize, usize, T)>, j: int, k: int) -> bool {
    0 <= j < k && triplets[j].0 == triplets[k].0 && triplets[j].1 == triplets[k].1
}

/// Whether the triplet of index `k` is out of bounds or repeats a position.
pub open spec fn violation_at<T>(
    triplets: Seq<(usize, usize, T)>,
    rows: usize,
    cols: usize,
    k: int,
) -> bool {
    0 <= k < triplets.len() && (out_of_bounds_at(triplets, rows, cols, k) || duplicate_at(
        triplets,
        k,
    ))
}

/// Whether the triplet of index `k` is the first that is not in order.
pub open spec fn is_first_violation<T>(
    triplets: Seq<(usize, usize, T)>,
    rows: usize,
    cols: usize,
    k: int,
) -> bool {
    violation_at(triplets, rows, cols, k) && forall|j: int|
        0 <= j < k ==> !violation_at(triplets, rows, cols, j)
}

/// Whether every triplet lies inside the shape and no position occurs twice.
pub open spec fn well_formed<T>(triplets: Seq<(usize, usize, T)>, rows: usize, cols: usize) -> bool {
    forall|k: int| 0 <= k < triplets.len() ==> !violation_at(triplets, rows, cols, k)
}

/// What is reported of a violation by the triplet of index `k`: out of
/// bounds where it is that, a repeated position otherwise.
pub open spec fn violation_error<T>(
    triplets: Seq<(usize, usize, T)>,
    rows: usize,
    cols: usize,
    k: int,
) -> HashMapBuildError {
    if out_of_bounds_at(triplets, rows, cols, k) {
        HashMapBuildError::OutOfBoundsCoord((triplets[k].0, triplets[k].1))
    } else {
        HashMapBuildError::DuplicateCoord((triplets[k].0, triplets[k].1))
    }
}

/// Whether `map` holds the first `n` triplets, each under the key of its
/// position, and nothing else.
pub open spec fn holds_entries<T>(map: Map<u128, T>, triplets: Seq<(usize, usize, T)>, n: int) -> bool {
    &&& forall|k: int|
        0 <= k < n ==> map.contains_key(#[trigger] entry_key(triplets, k)) && map[entry_key(
            triplets,
            k,
        )] == triplets[k].2
    &&& forall|key: u128| #[trigger]
        map.contains_key(key) ==> exists|k: int| 0 <= k < n && entry_key(triplets, k) == key
}

/// There is at most one first violation.
pub proof fn first_violation_is_unique<T>(
    triplets: Seq<(usize, usize, T)>,
    rows: usize,
    cols: usize,
    a: int,
    b: int,
)
    requires
        is_first_violation(triplets, rows, cols, a),
        is_first_violation(triplets, rows, cols, b),
    ensures
        a == b,
{
}

/// Triplets that are not well formed have a first violation.
pub proof fn ill_formed_has_first_violation<T>(
    triplets: Seq<(usize, usize, T)>,
    rows: usize,
    cols: usize,
) -> (k: int)
    requires
        !well_formed(triplets, rows, cols),
    ensures
        is_first_violation(triplets, rows, cols, k),
{
    let some = choose|k: int| 0 <= k < triplets.len() && violation_at(triplets, rows, cols, k);
    earliest_violation(triplets, rows, cols, some)
}

proof fn earliest_violation<T>(
    triplets: Seq<(usize, usize, T)>,
    rows: usize,
    cols: usize,
    upper: int,
) -> (k: int)
    requires
        violation_at(triplets, rows, cols, upper),
    ensures
        is_first_violation(triplets, rows, cols, k),
    decreases upper,
{
    if exists|j: int| 0 <= j < upper && violation_at(triplets, rows, cols, j) {
        let j = choose|j: int| 0 <= j < upper && violation_at(triplets, rows, cols, j);
        earliest_violation(triplets, rows, cols, j)
    } else {
        upper
    }
}

/// In a map that holds well-formed triplets, a position has a value exactly
/// where a triplet sits, and the value is that triplet's.
pub proof fn map_gives_sparse_value<T>(
    map: Map<u128, T>,
    triplets: Seq<(usize, usize, T)>,
    row: usize,
    col: usize,
    zero: T,
)
    requires
        holds_entries(map, triplets, triplets.len() as int),
    ensures
        map.contains_key(key_of(row, col)) <==> has_entry(triplets, row, col),
        map.contains_key(key_of(row, col)) ==> map[key_of(row, col)] == sparse_value(
            triplets,
            row,
            col,
            zero,
        ),
        !map.contains_key(key_of(row, col)) ==> sparse_value(
            triplets,
            row,
            col,
            zero,
        ) == zero,
{
    let key = key_of(row, col);
    if map.contains_key(key) {
        let k = choose|k: int| 0 <= k < triplets.len() && entry_key(triplets, k) == key;
        key_is_injective(triplets[k].0, triplets[k].1, row, col);
        assert(is_entry_at(triplets, k, row, col));
    }
    if has_entry(triplets, row, col) {
        let k = choose|k: int| is_entry_at(triplets, k, row, col);
        assert(entry_key(triplets, k) == key);
    }
}

/// Builds the map from position to value of the given triplets, or says what
/// is wrong with the first triplet that is not in order.
pub fn try_build_sparse_hash_map<T: Copy>(
    rows: usize,
    cols: usize,
    triplets: &[(usize, usize, T)],
) -> (r: Result<HashMap<u128, T>, HashMapBuildError>)
    ensures
        match r {
            Ok(map) => {
                &&& well_formed(triplets@, rows, cols)
                &&& holds_entries(map@, triplets@, triplets@.len() as int)
            },
            Err(error) => exists|k: int|
                is_first_violation(triplets@, rows, cols, k) && error == violation_error(
                    triplets@,
                    rows,
                    cols,
                    k,
                ),
        },
{
    let mut map: HashMap<u128, T> = HashMap::new();
    let n: usize = triplets.len();
    let mut k: usize = 0;
    while k < n
        invariant
            k <= n,
            n == triplets@.len(),
            forall|j: int| 0 <= j < k ==> !violation_at(triplets@, rows, cols, j),
            holds_entries(map@, triplets@, k as int),
        decreases n - k,
    {
        let (i, j, v) = triplets[k];
        if i >= rows || j >= cols {
            proof {
                assert(is_first_violation(triplets@, rows, cols, k as int));
            }
            return Err(HashMapBuildError::OutOfBoundsCoord((i, j)));
        }
        let key: u128 = coordinate_key(i, j);
        let ghost before = map@;
        let previous = map.insert(key, v);
        if previous.is_some() {
            proof {
                let earlier = choose|e: int| 0 <= e < k && entry_key(triplets@, e) == key;
                key_is_injective(triplets@[earlier].0, triplets@[earlier].1, i, j);
                assert(same_position(triplets@, earlier, k as int));
                assert(is_first_violation(triplets@, rows, cols, k as int));
            }
            return Err(HashMapBuildError::DuplicateCoord((i, j)));
        }
        proof {
            assert(entry_key(triplets@, k as int) == key);
            assert forall|e: int| !same_position(triplets@, e, k as int) by {
                if same_position(triplets@, e, k as int) {
                    assert(before.contains_key(entry_key(triplets@, e)));
                }
            }
            assert forall|e: int| 0 <= e < k + 1 implies map@.contains_key(
                #[trigger] entry_key(triplets@, e),
            ) && map@[entry_key(triplets@, e)] == triplets@[e].2 by {
                if e < k {
                    assert(before.contains_key(entry_key(triplets@, e)));
                }
            }
            assert forall|other: u128| #[trigger] map@.contains_key(other) implies exists|e: int|
                0 <= e < k + 1 && entry_key(triplets@, e) == other by {
                if other == key {
                    assert(entry_key(triplets@, k as int) == other);
                } else {
                    assert(before.contains_key(other));
                    let e = choose|e: int| 0 <= e < k && entry_key(triplets@, e) == other;
                    assert(0 <= e < k + 1 && entry_key(triplets@, e) == other);
                }
            }
        }
        k += 1;
    }
    Ok(map)
}

} // verus!
