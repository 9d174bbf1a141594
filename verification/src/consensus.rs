//! The aggregation rule of the tally: the median of the revealed prices.

use vstd::prelude::*;
use vstd::relations::{sorted_by, total_ordering};
use vstd::seq_lib::{group_to_multiset_ensures, lemma_sorted_unique, to_multiset_len};

verus! {

/// Every element is at most the elements after it.
pub open spec fn ascending(s: Seq<u128>) -> bool {
    forall|i: int, j: int| 0 <= i <= j < s.len() ==> s[i] <= s[j]
}

/// The natural order of the prices, as a relation.
pub open spec fn at_most() -> spec_fn(u128, u128) -> bool {
    |a: u128, b: u128| a <= b
}

/// The elements of `s`, each as often as in `s`, in ascending order.
pub open spec fn sorted(s: Seq<u128>) -> Seq<u128> {
    s.sort_by(at_most())
}

/// The median of a non-empty sequence: the middle element of its ascending
/// arrangement, or for an even count the average of the two middle elements,
/// rounded down.
pub open spec fn median_of(s: Seq<u128>) -> int
    recommends
        s.len() > 0,
{
    let t = sorted(s);
    let middle = t.len() as int / 2;
    if t.len() % 2 == 0 {
        (t[middle - 1] + t[middle]) / 2
    } else {
        t[middle] as int
    }
}

/// `sorted(s)` is ascending and holds exactly the elements of `s`.
pub proof fn lemma_sorted_is_arrangement(s: Seq<u128>)
    ensures
        ascending(sorted(s)),
        sorted(s).to_multiset() == s.to_multiset(),
        sorted(s).len() == s.len(),
{
    assert(total_ordering(at_most()));
    s.lemma_sort_by_ensures(at_most());
    let t = sorted(s);
    to_multiset_len(s);
    to_multiset_len(t);
    assert forall|i: int, j: int| 0 <= i <= j < t.len() implies t[i] <= t[j] by {
        if i < j {
            assert(at_most()(t[i], t[j]));
        }
    }
}

/// An ascending sequence with the elements of `s` is `sorted(s)`: the
/// ascending arrangement of a multiset is unique.
pub proof fn lemma_arrangement_is_sorted(t: Seq<u128>, s: Seq<u128>)
    requires
        ascending(t),
        t.to_multiset() == s.to_multiset(),
    ensures
        t == sorted(s),
{
    assert(total_ordering(at_most()));
    s.lemma_sort_by_ensures(at_most());
    assert(sorted_by(t, at_most()));
    lemma_sorted_unique(t, sorted(s), at_most());
}

/// The median depends on the multiset of values alone: two sequences that are
/// permutations of each other have the same median.
pub proof fn lemma_median_ignores_order(a: Seq<u128>, b: Seq<u128>)
    requires
        a.to_multiset() == b.to_multiset(),
    ensures
        median_of(a) == median_of(b),
{
    lemma_sorted_is_arrangement(a);
    lemma_arrangement_is_sorted(sorted(a), b);
}

/// Sorts `nums` in ascending order.
pub fn sort_ascending(nums: &mut Vec<u128>)
    ensures
        final(nums)@ == sorted(old(nums)@),
{
    let ghost input = nums@;
    let mut out: Vec<u128> = Vec::new();
    let n: usize = nums.len();
    let mut k: usize = 0;
    assert(out@ == input.take(0));
    while k < n
        invariant
            k <= n,
            n == nums.len(),
            nums@ == input,
            ascending(out@),
            out@.to_multiset() == input.take(k as int).to_multiset(),
            out.len() == k,
        decreases n - k,
    {
        let x: u128 = nums[k];
        let mut p: usize = 0;
        while p < out.len() && out[p] <= x
            invariant
                p <= out.len(),
                forall|i: int| 0 <= i < p ==> out[i] <= x,
            decreases out.len() - p,
        {
            p += 1;
        }
        proof {
            broadcast use group_to_multiset_ensures;

            assert(input.take(k + 1) == input.take(k as int).push(x));
            assert(ascending(out@.insert(p as int, x)));
        }
        out.insert(p, x);
        k += 1;
    }
    proof {
        assert(input.take(n as int) == input);
        lemma_arrangement_is_sorted(out@, input);
    }
    *nums = out;
}

/// The median of `nums`.
///
/// The average of the two middle elements is taken without overflow: it is
/// the exact value rounded down, also where their sum exceeds `u128::MAX`.
pub fn median(nums: Vec<u128>) -> (result: u128)
    requires
        nums.len() > 0,
    ensures
        result == median_of(nums@),
{
    let mut nums = nums;
    let ghost input = nums@;
    sort_ascending(&mut nums);
    proof {
        lemma_sorted_is_arrangement(input);
    }
    let middle: usize = nums.len() / 2;
    if nums.len() % 2 == 0 {
        let low: u128 = nums[middle - 1];
        let high: u128 = nums[middle];
        return low + (high - low) / 2;
    }
    nums[middle]
}

} // verus!
