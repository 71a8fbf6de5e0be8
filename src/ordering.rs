use vstd::prelude::*;

use crate::types::RepresentativeCount;

verus! {

broadcast use {vstd::seq_lib::to_multiset_remove, vstd::seq_lib::to_multiset_insert};

/// Rows in ascending order of ratio.
pub open spec fn sorted_by_ratio(s: Seq<RepresentativeCount>) -> bool {
    forall|a: int, b: int| 0 <= a < b < s.len() ==> s[a].ratio <= s[b].ratio
}

/// Sorts the rows in ascending order of ratio.
pub fn sort_by_ratio(v: &mut Vec<RepresentativeCount>)
    ensures
        final(v)@.to_multiset() == old(v)@.to_multiset(),
        final(v)@.len() == old(v)@.len(),
        sorted_by_ratio(final(v)@),
{
    let n = v.len();
    if n == 0 {
        return;
    }
    let mut i: usize = 1;
    while i < n
        invariant
            v@.len() == n,
            1 <= i <= n,
            v@.to_multiset() == old(v)@.to_multiset(),
            forall|a: int, b: int| 0 <= a < b < i ==> v@[a].ratio <= v@[b].ratio,
        decreases n - i,
    {
        let ghost before = v@;
        let x = v.remove(i);
        let mut j: usize = 0;
        while j < i && v[j].ratio <= x.ratio
            invariant
                v@ == before.remove(i as int),
                v@.len() == n - 1,
                i < n,
                j <= i,
                forall|a: int, b: int| 0 <= a < b < i ==> v@[a].ratio <= v@[b].ratio,
                forall|a: int| 0 <= a < j ==> v@[a].ratio <= x.ratio,
            decreases i - j,
        {
            j = j + 1;
        }
        let ghost removed = v@;
        v.insert(j, x);
        proof {
            broadcast use vstd::multiset::group_multiset_axioms;
            vstd::seq_lib::to_multiset_contains(before, before[i as int]);
            assert(before.to_multiset().contains(before[i as int]));
            assert(before.to_multiset().remove(before[i as int]).insert(before[i as int])
                =~= before.to_multiset());
            assert forall|a: int, b: int| 0 <= a < b < i + 1 implies v@[a].ratio <= v@[b].ratio by {
                if j < i {
                    assert(removed[j as int].ratio > x.ratio);
                }
                if a < j && b > j {
                    assert(removed[a].ratio <= x.ratio);
                    if j < i {
                        assert(removed[j as int].ratio <= removed[b - 1].ratio || j == b - 1);
                    }
                }
            }
        }
        i = i + 1;
    }
}

} // verus!
