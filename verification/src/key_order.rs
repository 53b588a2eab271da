//! Putting the keys of positions in ascending order, each key once.
//!
//! The order of the keys is the row-major order of the positions, so a list
//! of ascending keys is a list of positions row by row. The work is that of a
//! merge sort: in the order of `n log n` steps for `n` keys.

use crate::sparse_map::{coordinate_key, entry_key};
use vstd::prelude::*;

verus! {

/// Whether every key is less than the keys after it.
pub open spec fn is_ascending(keys: Seq<u128>) -> bool {
    forall|a: int, b: int| 0 <= a < b < keys.len() ==> keys[a] < keys[b]
}

/// Whether `key` is one of the keys of index `lo` up to, not including, `hi`.
pub open spec fn occurs_between(keys: Seq<u128>, lo: int, hi: int, key: u128) -> bool {
    exists|k: int| lo <= k < hi && 0 <= k < keys.len() && keys[k] == key
}

/// The keys of the two ascending lists in one ascending list, a key that is
/// in both taken once.
pub fn merge_ascending(first: &Vec<u128>, second: &Vec<u128>) -> (merged: Vec<u128>)
    requires
        is_ascending(first@),
        is_ascending(second@),
    ensures
        is_ascending(merged@),
        forall|key: u128|
            merged@.contains(key) <==> (first@.contains(key) || second@.contains(key)),
{
    let mut merged: Vec<u128> = Vec::new();
    let mut i: usize = 0;
    let mut j: usize = 0;
    while i < first.len() || j < second.len()
        invariant
            i <= first@.len(),
            j <= second@.len(),
            is_ascending(first@),
            is_ascending(second@),
            is_ascending(merged@),
            forall|k: int|
                0 <= k < merged@.len() ==> (occurs_between(first@, 0, i as int, #[trigger] merged@[k])
                    || occurs_between(second@, 0, j as int, merged@[k])),
            forall|k: int| 0 <= k < i ==> merged@.contains(#[trigger] first@[k]),
            forall|k: int| 0 <= k < j ==> merged@.contains(#[trigger] second@[k]),
            forall|k: int| 0 <= k < merged@.len() && i < first@.len() ==> #[trigger] merged@[k] < first@[i as int],
            forall|k: int|
                0 <= k < merged@.len() && j < second@.len() ==> #[trigger] merged@[k] < second@[j as int],
        decreases first@.len() - i + second@.len() - j,
    {
        let ghost before = merged@;
        let take_first: bool = if i >= first.len() {
            false
        } else if j >= second.len() {
            true
        } else {
            first[i] <= second[j]
        };
        let key: u128 = if take_first {
            first[i]
        } else {
            second[j]
        };
        let skip_second: bool = take_first && j < second.len() && second[j] == key;
        merged.push(key);
        proof {
            assert(merged@[before.len() as int] == key);
            assert forall|k: int| 0 <= k < before.len() implies merged@[k] == before[k] by {}
            assert forall|k: int| 0 <= k < i implies merged@.contains(#[trigger] first@[k]) by {
                let at = choose|at: int| 0 <= at < before.len() && before[at] == first@[k];
                assert(merged@[at] == first@[k]);
            }
            assert forall|k: int| 0 <= k < j implies merged@.contains(#[trigger] second@[k]) by {
                let at = choose|at: int| 0 <= at < before.len() && before[at] == second@[k];
                assert(merged@[at] == second@[k]);
            }
        }
        if take_first {
            i += 1;
            if skip_second {
                j += 1;
            }
        } else {
            j += 1;
        }
        proof {
            assert forall|k: int| 0 <= k < merged@.len() implies (occurs_between(
                first@,
                0,
                i as int,
                #[trigger] merged@[k],
            ) || occurs_between(second@, 0, j as int, merged@[k])) by {
                if k < before.len() {
                    assert(merged@[k] == before[k]);
                    if occurs_between(first@, 0, i as int - 1, before[k]) || (take_first
                        && occurs_between(first@, 0, i as int, before[k])) {
                    }
                } else {
                    if take_first {
                        assert(first@[i as int - 1] == key);
                    } else {
                        assert(second@[j as int - 1] == key);
                    }
                }
            }
        }
    }
    proof {
        assert forall|key: u128| merged@.contains(key) implies (first@.contains(key)
            || second@.contains(key)) by {
            let k = choose|k: int| 0 <= k < merged@.len() && merged@[k] == key;
            assert(occurs_between(first@, 0, i as int, merged@[k]) || occurs_between(
                second@,
                0,
                j as int,
                merged@[k],
            ));
        }
        assert forall|key: u128| (first@.contains(key) || second@.contains(key)) implies merged@.contains(
            key,
        ) by {
            if first@.contains(key) {
                let k = choose|k: int| 0 <= k < first@.len() && first@[k] == key;
                assert(merged@.contains(first@[k]));
            } else {
                let k = choose|k: int| 0 <= k < second@.len() && second@[k] == key;
                assert(merged@.contains(second@[k]));
            }
        }
    }
    merged
}

/// The keys of index `lo` up to, not including, `hi`, in ascending order and
/// each once.
fn ascending_range(keys: &Vec<u128>, lo: usize, hi: usize) -> (sorted: Vec<u128>)
    requires
        lo <= hi <= keys@.len(),
    ensures
        is_ascending(sorted@),
        forall|key: u128| sorted@.contains(key) <==> occurs_between(keys@, lo as int, hi as int, key),
    decreases hi - lo,
{
    if hi - lo == 0 {
        Vec::new()
    } else if hi - lo == 1 {
        let mut sorted: Vec<u128> = Vec::new();
        sorted.push(keys[lo]);
        proof {
            assert(sorted@[0] == keys@[lo as int]);
            assert forall|key: u128| occurs_between(keys@, lo as int, hi as int, key) implies sorted@.contains(
                key,
            ) by {
                assert(sorted@[0] == key);
            }
        }
        sorted
    } else {
        let mid: usize = lo + (hi - lo) / 2;
        let lower = ascending_range(keys, lo, mid);
        let upper = ascending_range(keys, mid, hi);
        let sorted = merge_ascending(&lower, &upper);
        proof {
            assert forall|key: u128| sorted@.contains(key) <==> occurs_between(
                keys@,
                lo as int,
                hi as int,
                key,
            ) by {
                if occurs_between(keys@, lo as int, hi as int, key) {
                    let k = choose|k: int|
                        lo <= k < hi && 0 <= k < keys@.len() && keys@[k] == key;
                    if k < mid {
                        assert(occurs_between(keys@, lo as int, mid as int, key));
                    } else {
                        assert(occurs_between(keys@, mid as int, hi as int, key));
                    }
                }
                if sorted@.contains(key) {
                    assert(lower@.contains(key) || upper@.contains(key));
                    if lower@.contains(key) {
                        assert(occurs_between(keys@, lo as int, mid as int, key));
                    } else {
                        assert(occurs_between(keys@, mid as int, hi as int, key));
                    }
                }
            }
        }
        sorted
    }
}

/// The given keys in ascending order, each once.
pub fn ascending_keys(keys: &Vec<u128>) -> (sorted: Vec<u128>)
    ensures
        is_ascending(sorted@),
        forall|key: u128| sorted@.contains(key) <==> keys@.contains(key),
{
    let sorted = ascending_range(keys, 0, keys.len());
    proof {
        assert forall|key: u128| sorted@.contains(key) <==> keys@.contains(key) by {
            if keys@.contains(key) {
                let k = choose|k: int| 0 <= k < keys@.len() && keys@[k] == key;
                assert(occurs_between(keys@, 0, keys@.len() as int, key));
            }
        }
    }
    sorted
}

/// The keys of the positions of the given triplets, in the triplets' order.
pub fn triplet_keys<T: Copy>(triplets: &[(usize, usize, T)]) -> (keys: Vec<u128>)
    ensures
        keys@.len() == triplets@.len(),
        forall|k: int| 0 <= k < keys@.len() ==> keys@[k] == entry_key(triplets@, k),
{
    let mut keys: Vec<u128> = Vec::new();
    let n: usize = triplets.len();
    let mut k: usize = 0;
    while k < n
        invariant
            k <= n,
            n == triplets@.len(),
            keys@.len() == k,
            forall|e: int| 0 <= e < k ==> keys@[e] == entry_key(triplets@, e),
        decreases n - k,
    {
        let (row, col, _value) = triplets[k];
        keys.push(coordinate_key(row, col));
        k += 1;
    }
    keys
}

} // verus!
