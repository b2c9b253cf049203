//! Median and modes of a list of integers.

use std::collections::HashMap;
use vstd::prelude::*;
use vstd::std_specs::hash::spec_hash_map_iter;
use vstd::std_specs::iter::IteratorSpec;

verus! {

/// How often `x` occurs in `values`.
pub open spec fn occurrences(values: Seq<i32>, x: i32) -> nat
    decreases values.len(),
{
    if values.len() == 0 {
        0
    } else {
        occurrences(values.drop_last(), x) + if values.last() == x {
            1nat
        } else {
            0nat
        }
    }
}

/// `x` is a mode of `values`: it occurs in them, and no value occurs more
/// often.
pub open spec fn is_mode(values: Seq<i32>, x: i32) -> bool {
    &&& occurrences(values, x) > 0
    &&& forall|y: i32| occurrences(values, y) <= occurrences(values, x)
}

/// No value stands before a smaller one.
pub open spec fn is_ascending(values: Seq<i32>) -> bool {
    forall|i: int, j: int| 0 <= i <= j < values.len() ==> values[i] <= values[j]
}

/// Twice the median of a list in ascending order: twice the middle value
/// of an odd number of values, the sum of the two middle values of an even
/// number.
pub open spec fn doubled_median_of(sorted: Seq<i32>) -> int {
    let middle = sorted.len() as int / 2;
    if sorted.len() % 2 == 1 {
        2 * sorted[middle]
    } else {
        sorted[middle - 1] + sorted[middle]
    }
}

/// A median, held exactly as twice its value: the median of an even number
/// of integers may lie halfway between two of them.
#[derive(Clone, Copy, Debug, PartialEq, Eq, Structural)]
pub struct Median {
    pub doubled: i64,
}

/// No value occurs more often than the list is long.
proof fn lemma_occurrences_bound(values: Seq<i32>, x: i32)
    ensures
        occurrences(values, x) <= values.len(),
    decreases values.len(),
{
    if values.len() > 0 {
        lemma_occurrences_bound(values.drop_last(), x);
    }
}

/// The median of a list that stands in ascending order.
pub fn calculate_median(sorted_vec: &Vec<i32>) -> (median: Median)
    requires
        sorted_vec.len() > 0,
    ensures
        median.doubled == doubled_median_of(sorted_vec@),
{
    let n: usize = sorted_vec.len();
    if n % 2 == 1 {
        let middle: i64 = sorted_vec[n / 2] as i64;
        Median { doubled: 2 * middle }
    } else {
        let left: i64 = sorted_vec[n / 2 - 1] as i64;
        let right: i64 = sorted_vec[n / 2] as i64;
        Median { doubled: left + right }
    }
}

/// How often each value occurs in `values`: a count for each value that
/// occurs, and for no other.
fn count_occurrences(values: &Vec<i32>) -> (counts: HashMap<i32, usize>)
    ensures
        forall|x: i32| counts@.contains_key(x) <==> occurrences(values@, x) > 0,
        forall|x: i32| counts@.contains_key(x) ==> counts@[x] == occurrences(values@, x),
{
    let mut counts: HashMap<i32, usize> = HashMap::new();
    let mut i: usize = 0;
    while i < values.len()
        invariant
            i <= values.len(),
            forall|x: i32|
                counts@.contains_key(x) <==> occurrences(values@.take(i as int), x) > 0,
            forall|x: i32|
                counts@.contains_key(x) ==> counts@[x] == occurrences(values@.take(i as int), x),
        decreases values.len() - i,
    {
        let value: i32 = values[i];
        proof {
            assert(values@.take(i as int + 1).drop_last() == values@.take(i as int));
            lemma_occurrences_bound(values@.take(i as int), value);
        }
        let count = counts.entry(value).or_insert(0);
        *count += 1;
        i += 1;
    }
    proof {
        assert(values@.take(values.len() as int) == values@);
    }
    counts
}

/// Among the first `upto` entries stands `x` with the count `count`.
spec fn listed(entries: Seq<(&i32, &usize)>, upto: int, x: i32, count: usize) -> bool {
    exists|j: int| 0 <= j < upto && *entries[j].0 == x && *entries[j].1 == count
}

/// The modes of `vec`: each value that occurs most often, once.
/// An empty list has none. Their order is that of no rule.
pub fn calculate_mode(vec: &Vec<i32>) -> (mode: Vec<i32>)
    ensures
        mode@.no_duplicates(),
        forall|x: i32| mode@.contains(x) <==> is_mode(vec@, x),
{
    let count_map = count_occurrences(vec);
    let mut mode: Vec<i32> = Vec::new();
    let mut max_count: usize = 0;
    let ghost entries = spec_hash_map_iter(&count_map).remaining();
    for entry in it: count_map.iter()
        invariant
            it.seq() == entries,
            entries == spec_hash_map_iter(&count_map).remaining(),
            entries.no_duplicates(),
            forall|j: int| 0 <= j < it.index() ==> *entries[j].1 <= max_count,
            it.index() == 0 ==> max_count == 0,
            it.index() > 0 ==> exists|j: int| 0 <= j < it.index() && *entries[j].1 == max_count,
            forall|x: i32| mode@.contains(x) <==> listed(entries, it.index(), x, max_count),
            mode@.no_duplicates(),
    {
        let (val, count) = entry;
        let ghost before = mode@;
        let ghost k = it.index();
        assert(entries[k] == (val, count));
        if *count < max_count {
            proof {
                let top = choose|j: int| 0 <= j < k && *entries[j].1 == max_count;
                assert(0 <= top < k + 1 && *entries[top].1 == max_count);
            }
            assert forall|x: i32| mode@.contains(x) <==> listed(
                entries,
                k + 1,
                x,
                max_count,
            ) by {
                if listed(entries, k + 1, x, max_count) {
                    let j = choose|j: int|
                        0 <= j < k + 1 && *entries[j].0 == x && *entries[j].1 == max_count;
                    assert(j < k);
                    assert(listed(entries, k, x, max_count));
                }
                if listed(entries, k, x, max_count) {
                    let j = choose|j: int|
                        0 <= j < k && *entries[j].0 == x && *entries[j].1 == max_count;
                    assert(0 <= j < k + 1 && *entries[j].0 == x && *entries[j].1 == max_count);
                }
            }
        } else if *count == max_count {
            proof {
                if before.contains(*val) {
                    let j = choose|j: int|
                        0 <= j < k && *entries[j].0 == *val && *entries[j].1 == max_count;
                    assert(entries[j] == entries[k]);
                }
            }
            mode.push(*val);
            assert(mode@ == before.push(*val));
            assert(mode@[before.len() as int] == *val);
            assert forall|x: i32| mode@.contains(x) <==> listed(
                entries,
                k + 1,
                x,
                max_count,
            ) by {
                if listed(entries, k + 1, x, max_count) {
                    let j = choose|j: int|
                        0 <= j < k + 1 && *entries[j].0 == x && *entries[j].1 == max_count;
                    if j < k {
                        assert(listed(entries, k, x, max_count));
                        assert(before.contains(x));
                        let at = choose|at: int| 0 <= at < before.len() && before[at] == x;
                        assert(mode@[at] == x);
                    }
                }
                if mode@.contains(x) {
                    if before.contains(x) {
                        let j = choose|j: int|
                            0 <= j < k && *entries[j].0 == x && *entries[j].1 == max_count;
                        assert(0 <= j < k + 1 && *entries[j].0 == x && *entries[j].1
                            == max_count);
                    } else {
                        assert(x == *val);
                        assert(0 <= k < k + 1 && *entries[k].0 == x && *entries[k].1
                            == max_count);
                    }
                }
            }
            assert(0 <= k < k + 1 && *entries[k].1 == max_count);
        } else {
            max_count = *count;
            mode.clear();
            mode.push(*val);
            assert(mode@ == seq![*val]);
            assert(mode@[0] == *val);
            assert forall|x: i32| mode@.contains(x) <==> listed(
                entries,
                k + 1,
                x,
                max_count,
            ) by {
                if listed(entries, k + 1, x, max_count) {
                    let j = choose|j: int|
                        0 <= j < k + 1 && *entries[j].0 == x && *entries[j].1 == max_count;
                    assert(j == k);
                }
                if x == *val {
                    assert(0 <= k < k + 1 && *entries[k].0 == x && *entries[k].1
                        == max_count);
                }
            }
            assert(0 <= k < k + 1 && *entries[k].1 == max_count);
        }
    }
    proof {
        let n = entries.len() as int;
        assert forall|x: i32| mode@.contains(x) <==> is_mode(vec@, x) by {
            if mode@.contains(x) {
                let j = choose|j: int|
                    0 <= j < n && *entries[j].0 == x && *entries[j].1 == max_count;
                assert(count_map@.contains_key(*entries[j].0));
                assert forall|y: i32| occurrences(vec@, y) <= occurrences(vec@, x) by {
                    if occurrences(vec@, y) > 0 {
                        assert(count_map@.contains_key(y));
                        assert(entries.contains((&y, &count_map@[y])));
                    }
                }
            }
            if is_mode(vec@, x) {
                assert(count_map@.contains_key(x));
                assert(entries.contains((&x, &count_map@[x])));
                let at = choose|at: int| 0 <= at < n && entries[at] == (&x, &count_map@[x]);
                let top = choose|j: int| 0 <= j < n && *entries[j].1 == max_count;
                assert(count_map@.contains_key(*entries[top].0));
                assert(occurrences(vec@, *entries[top].0) <= occurrences(vec@, x));
                assert(0 <= at < n && *entries[at].0 == x && *entries[at].1 == max_count);
            }
        }
    }
    mode
}

/// `slice::sort` on a vector of integers: the same values, each as often as
/// before, in ascending order.
#[verifier::external_body]
fn sort(values: &mut Vec<i32>)
    ensures
        is_ascending(final(values)@),
        final(values)@.to_multiset() == old(values)@.to_multiset(),
{
    values.sort();
}

/// Counting a value in a list is counting it in the list's multiset.
pub proof fn lemma_occurrences_in_multiset(values: Seq<i32>, x: i32)
    ensures
        occurrences(values, x) == values.to_multiset().count(x),
    decreases values.len(),
{
    broadcast use vstd::seq_lib::group_to_multiset_ensures;

    if values.len() > 0 {
        lemma_occurrences_in_multiset(values.drop_last(), x);
        assert(values == values.drop_last().push(values.last()));
    }
}

/// Two lists that hold the same values equally often have the same modes.
pub proof fn lemma_modes_of_rearranged(a: Seq<i32>, b: Seq<i32>, x: i32)
    requires
        a.to_multiset() == b.to_multiset(),
    ensures
        is_mode(a, x) <==> is_mode(b, x),
{
    lemma_occurrences_in_multiset(a, x);
    lemma_occurrences_in_multiset(b, x);
    assert forall|y: i32| occurrences(a, y) == occurrences(b, y) by {
        lemma_occurrences_in_multiset(a, y);
        lemma_occurrences_in_multiset(b, y);
    }
}

/// Puts `input_vec` in ascending order and gives its median and its modes.
pub fn calculate_median_and_mode(input_vec: &mut Vec<i32>) -> (result: (Median, Vec<i32>))
    requires
        old(input_vec).len() > 0,
    ensures
        is_ascending(final(input_vec)@),
        final(input_vec)@.to_multiset() == old(input_vec)@.to_multiset(),
        result.0.doubled == doubled_median_of(final(input_vec)@),
        result.1@.no_duplicates(),
        forall|x: i32| result.1@.contains(x) <==> is_mode(old(input_vec)@, x),
{
    sort(input_vec);
    proof {
        old(input_vec)@.to_multiset_ensures();
        input_vec@.to_multiset_ensures();
    }
    let median = calculate_median(input_vec);
    let mode = calculate_mode(input_vec);
    proof {
        assert forall|x: i32| mode@.contains(x) <==> is_mode(old(input_vec)@, x) by {
            lemma_modes_of_rearranged(input_vec@, old(input_vec)@, x);
        }
    }
    (median, mode)
}

} // verus!
