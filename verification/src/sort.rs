//! In-place bubble sort of an integer vector, and a scan that checks a
//! vector for non-decreasing order.

use vstd::prelude::*;
use vstd::seq_lib::group_to_multiset_ensures;

verus! {

/// A sequence is sorted when every adjacent pair is in non-decreasing
/// order; sequences of length below two are trivially sorted.
pub open spec fn sorted(s: Seq<i32>) -> bool {
    forall|i: int| #![trigger s[i], s[i + 1]] 0 <= i < s.len() - 1 ==> s[i] <= s[i + 1]
}

/// Every element of `s` at or after position `b` is at least as large as
/// every element before or at its own position: the suffix starting at `b`
/// is sorted and dominates the prefix.
spec fn suffix_in_place(s: Seq<i32>, b: int) -> bool {
    forall|i: int, j: int| #![trigger s[i], s[j]] b <= j < s.len() && 0 <= i <= j ==> s[i] <= s[j]
}

/// Swapping two positions of a sequence leaves its multiset of elements
/// unchanged.
proof fn lemma_swap_preserves_multiset(s: Seq<i32>, i: int, j: int)
    requires
        0 <= i < s.len(),
        0 <= j < s.len(),
        i != j,
    ensures
        s.update(i, s[j]).update(j, s[i]).to_multiset() == s.to_multiset(),
{
    broadcast use group_to_multiset_ensures;

    let s1 = s.update(i, s[j]);
    let s2 = s1.update(j, s[i]);
    assert(s1.to_multiset() == s.to_multiset().insert(s[j]).remove(s[i]));
    assert(s1[j] == s[j]);
    assert(s2.to_multiset() == s1.to_multiset().insert(s[i]).remove(s[j]));
    assert(s.contains(s[i]));
    assert(s.to_multiset().count(s[i]) > 0);
    assert(s2.to_multiset() =~= s.to_multiset());
}

/// Returns whether the vector is in non-decreasing order.
pub fn verify_sorted(vec: &Vec<i32>) -> (r: bool)
    ensures
        r == sorted(vec@),
{
    if vec.len() < 2 {
        return true;
    }
    for i in 1..vec.len()
        invariant
            forall|k: int| 1 <= k < i ==> vec@[k - 1] <= #[trigger] vec@[k],
    {
        if vec[i - 1] > vec[i] {
            assert(!sorted(vec@)) by {
                assert(vec@[i - 1] > vec@[i as int]);
            }
            return false;
        }
    }
    true
}

/// Sorts the vector in place into non-decreasing order by repeated passes
/// over adjacent pairs, swapping each out-of-order pair, until a full pass
/// performs no swap. The elements are permuted, never changed, and a
/// vector that is already sorted comes back identical.
pub fn bubble_sort(vec: &mut Vec<i32>)
    ensures
        sorted(final(vec)@),
        final(vec)@.to_multiset() == old(vec)@.to_multiset(),
        final(vec)@.len() == old(vec)@.len(),
        sorted(old(vec)@) ==> final(vec)@ == old(vec)@,
{
    let ghost orig = vec@;
    let n: usize = vec.len();
    let mut pass: usize = 0;
    while pass < n
        invariant_except_break
            n == vec@.len(),
            pass <= n,
            vec@.to_multiset() == orig.to_multiset(),
            sorted(orig) ==> vec@ == orig,
            suffix_in_place(vec@, n - pass),
        ensures
            n == vec@.len(),
            vec@.to_multiset() == orig.to_multiset(),
            sorted(orig) ==> vec@ == orig,
            sorted(vec@),
        decreases n - pass,
    {
        let mut swapped: bool = false;
        let ghost start = vec@;
        for i in 1..n
            invariant
                n == vec@.len(),
                pass < n,
                vec@.to_multiset() == orig.to_multiset(),
                sorted(orig) ==> vec@ == orig,
                suffix_in_place(vec@, n - pass),
                forall|k: int| 0 <= k < i ==> #[trigger] vec@[k] <= vec@[i - 1],
                i >= n - pass ==> suffix_in_place(vec@, n - pass - 1),
                !swapped ==> vec@ == start,
                !swapped ==> forall|k: int| 1 <= k < i ==> vec@[k - 1] <= #[trigger] vec@[k],
        {
            let left: i32 = vec[i - 1];
            let right: i32 = vec[i];
            if left > right {
                proof {
                    lemma_swap_preserves_multiset(vec@, i - 1, i as int);
                }
                vec.set(i - 1, right);
                vec.set(i, left);
                swapped = true;
            }
        }
        if !swapped {
            break;
        }
        pass = pass + 1;
    }
}

} // verus!
