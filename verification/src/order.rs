//! A verified descending sort of `(key, index)` pairs.
//!
//! The listing endpoints (recent tokens, recent transactions, top movers)
//! order records by a numeric key. They build one pair per record, sort the
//! pairs here, and read the records back through the indices.

use vstd::prelude::*;
use vstd::seq_lib::group_to_multiset_ensures;

verus! {

broadcast use group_to_multiset_ensures;

/// Keys are non-increasing along the sequence.
pub open spec fn sorted_desc(s: Seq<(i128, usize)>) -> bool {
    forall|a: int, b: int| 0 <= a <= b < s.len() ==> (#[trigger] s[a]).0 >= (#[trigger] s[b]).0
}

/// Sorts pairs by key, largest first. The result is a permutation of the
/// input; a duplicate-free input stays duplicate-free.
pub fn sort_pairs_desc(v: Vec<(i128, usize)>) -> (r: Vec<(i128, usize)>)
    ensures
        sorted_desc(r@),
        r@.to_multiset() == v@.to_multiset(),
        r@.len() == v@.len(),
        v@.no_duplicates() ==> r@.no_duplicates(),
{
    let ghost orig = v@;
    let mut work = v;
    let mut out: Vec<(i128, usize)> = Vec::new();
    while work.len() > 0
        invariant
            out@.to_multiset().add(work@.to_multiset()) == orig.to_multiset(),
            out@.len() + work@.len() == orig.len(),
            sorted_desc(out@),
            forall|k: int, l: int|
                0 <= k < out@.len() && 0 <= l < work@.len() ==> (#[trigger] out@[k]).0
                    >= (#[trigger] work@[l]).0,
        decreases work.len(),
    {
        let n = work.len();
        let mut m: usize = 0;
        let mut j: usize = 1;
        while j < n
            invariant
                n == work.len(),
                m < j <= n,
                forall|k: int| 0 <= k < j ==> (#[trigger] work@[k]).0 <= work@[m as int].0,
            decreases n - j,
        {
            if work[j].0 > work[m].0 {
                m = j;
            }
            j += 1;
        }
        let x = work[m];
        let ghost out_before = out@;
        let ghost work_before = work@;
        out.push(x);
        work.remove(m);
        proof {
            assert(work_before.contains(x));
            assert(work_before.to_multiset().count(x) > 0);
            assert(out@.to_multiset() =~= out_before.to_multiset().insert(x));
            assert(work@.to_multiset() =~= work_before.to_multiset().remove(x));
            assert(out@.to_multiset().add(work@.to_multiset()) =~= orig.to_multiset());
            assert(forall|l: int|
                0 <= l < work@.len() ==> work@[l] == work_before[if l < m as int {
                    l
                } else {
                    l + 1
                }]);
        }
    }
    proof {
        if orig.no_duplicates() {
            orig.lemma_multiset_has_no_duplicates();
            assert(out@.to_multiset() =~= orig.to_multiset()) by {
                assert(work@.to_multiset().len() == 0);
                assert(out@.to_multiset().add(work@.to_multiset()) =~= out@.to_multiset());
            }
            out@.lemma_multiset_has_no_duplicates_conv();
        }
        assert(out@.to_multiset() =~= orig.to_multiset()) by {
            assert(out@.to_multiset().add(work@.to_multiset()) =~= out@.to_multiset());
        }
    }
    out
}

} // verus!
