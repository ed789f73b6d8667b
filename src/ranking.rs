use vstd::prelude::*;

verus! {

/// Lexicographic order on (rank, index) pairs, as std orders tuples.
pub open spec fn pair_le(a: (u128, usize), b: (u128, usize)) -> bool {
    a.0 < b.0 || (a.0 == b.0 && a.1 <= b.1)
}

/// Some pair of `s` carries the index `k`.
pub open spec fn index_present(s: Seq<(u128, usize)>, k: int) -> bool {
    exists|i: int| 0 <= i < s.len() && (#[trigger] s[i]).1 == k
}

pub open spec fn sorted_pairs(s: Seq<(u128, usize)>) -> bool {
    forall|i: int, j: int| 0 <= i < j < s.len() ==> pair_le(#[trigger] s[i], #[trigger] s[j])
}

/// Relies on slice::sort_unstable: the same items, in ascending order of
/// the tuple's lexicographic `Ord`.
#[verifier::external_body]
fn sort_pairs(v: Vec<(u128, usize)>) -> (r: Vec<(u128, usize)>)
    ensures
        r@.to_multiset() == v@.to_multiset(),
        sorted_pairs(r@),
{
    let mut v = v;
    v.sort_unstable();
    v
}

/// Orders candidate positions by ascending rank; equal ranks keep their
/// index order. Each index below `ranks.len()` appears once.
pub fn rank_order(ranks: &Vec<u128>) -> (r: Vec<(u128, usize)>)
    ensures
        r@.len() == ranks@.len(),
        sorted_pairs(r@),
        forall|i: int| 0 <= i < r@.len() ==> (#[trigger] r@[i]).1 < ranks@.len()
            && r@[i].0 == ranks@[r@[i].1 as int],
        forall|k: int| 0 <= k < ranks@.len() ==> #[trigger] index_present(r@, k),
{
    let mut pairs: Vec<(u128, usize)> = Vec::new();
    let mut i: usize = 0;
    while i < ranks.len()
        invariant
            i <= ranks@.len(),
            pairs@.len() == i,
            forall|j: int| 0 <= j < i ==> #[trigger] pairs@[j] == (ranks@[j], j as usize),
        decreases ranks@.len() - i,
    {
        pairs.push((ranks[i], i));
        i = i + 1;
    }
    let ghost before = pairs@;
    let r = sort_pairs(pairs);
    proof {
        broadcast use vstd::seq_lib::group_to_multiset_ensures;
        assert(r@.len() == before.len()) by {
            before.to_multiset_ensures();
            r@.to_multiset_ensures();
        }
        assert forall|i: int| 0 <= i < r@.len() implies (#[trigger] r@[i]).1 < ranks@.len()
            && r@[i].0 == ranks@[r@[i].1 as int] by {
            r@.to_multiset_ensures();
            before.to_multiset_ensures();
            assert(r@.to_multiset().count(r@[i]) > 0);
            assert(before.contains(r@[i]));
        }
        assert forall|k: int| 0 <= k < ranks@.len() implies #[trigger] index_present(r@, k) by {
            r@.to_multiset_ensures();
            before.to_multiset_ensures();
            assert(before[k] == (ranks@[k], k as usize));
            assert(before.to_multiset().count(before[k]) > 0);
            assert(r@.contains(before[k]));
            let i = choose|i: int| 0 <= i < r@.len() && r@[i] == before[k];
            assert(r@[i].1 == k);
        }
    }
    r
}

} // verus!
