//! Sorting and the median.

use vstd::prelude::*;
use vstd::relations::{sorted_by, total_ordering};
use vstd::seq_lib::{lemma_sorted_unique, to_multiset_build, to_multiset_insert};

verus! {

/// The order of the integers.
pub open spec fn at_most() -> spec_fn(u64, u64) -> bool {
    |a: u64, b: u64| a <= b
}

/// The values in ascending order.
pub open spec fn ascending(values: Seq<u64>) -> Seq<u64> {
    values.sort_by(at_most())
}

/// The median of the values: the middle one in ascending order, or the mean
/// of the two middle ones, rounded down; zero where there are none.
pub open spec fn median(values: Seq<u64>) -> int {
    let sorted = ascending(values);
    let mid = (sorted.len() / 2) as int;
    if sorted.len() == 0 {
        0
    } else if sorted.len() % 2 == 0 {
        (sorted[mid - 1] + sorted[mid]) / 2
    } else {
        sorted[mid] as int
    }
}

/// The ascending order keeps the number of values.
pub proof fn lemma_ascending_len(values: Seq<u64>)
    ensures
        ascending(values).len() == values.len(),
{
    assert(total_ordering(at_most()));
    values.lemma_sort_by_ensures(at_most());
    values.to_multiset_ensures();
    ascending(values).to_multiset_ensures();
}

/// Sorts the values into ascending order.
pub fn sort(values: &Vec<u64>) -> (sorted: Vec<u64>)
    ensures
        sorted@ == ascending(values@),
{
    let mut sorted: Vec<u64> = Vec::new();
    let mut k: usize = 0;
    proof {
        assert(values@.take(0) =~= Seq::empty());
    }
    while k < values.len()
        invariant
            k <= values.len(),
            sorted_by(sorted@, at_most()),
            sorted@.to_multiset() == values@.take(k as int).to_multiset(),
        decreases values.len() - k,
    {
        let x: u64 = values[k];
        let mut at: usize = 0;
        while at < sorted.len() && sorted[at] <= x
            invariant
                at <= sorted.len(),
                forall|j: int| 0 <= j < at ==> sorted@[j] <= x,
            decreases sorted.len() - at,
        {
            at += 1;
        }
        let ghost before = sorted@;
        sorted.insert(at, x);
        proof {
            to_multiset_insert(before, at as int, x);
            assert(values@.take(k + 1) =~= values@.take(k as int).push(x));
            to_multiset_build(values@.take(k as int), x);
            assert forall|i: int, j: int| 0 <= i < j < sorted@.len() implies at_most()(
                sorted@[i],
                sorted@[j],
            ) by {
                if j < at {
                    assert(at_most()(before[i], before[j]));
                } else if j == at {
                } else if i < at {
                    assert(at_most()(before[i], before[j - 1]));
                } else if i == at {
                    assert(at_most()(before[at as int], before[j - 1]));
                } else {
                    assert(at_most()(before[i - 1], before[j - 1]));
                }
            }
        }
        k += 1;
    }
    proof {
        assert(values@.take(values.len() as int) =~= values@);
        assert(total_ordering(at_most()));
        values@.lemma_sort_by_ensures(at_most());
        lemma_sorted_unique(sorted@, ascending(values@), at_most());
    }
    sorted
}

/// Computes the [`median`].
pub fn median_of(values: &Vec<u64>) -> (m: u64)
    ensures
        m == median(values@),
{
    let sorted = sort(values);
    proof {
        lemma_ascending_len(values@);
    }
    let n: usize = sorted.len();
    if n == 0 {
        0
    } else if n % 2 == 0 {
        let low: u64 = sorted[n / 2 - 1];
        let high: u64 = sorted[n / 2];
        low / 2 + high / 2 + (low % 2 + high % 2) / 2
    } else {
        sorted[n / 2]
    }
}

} // verus!
