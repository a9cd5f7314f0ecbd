use vstd::prelude::*;
use vstd::set_lib::{lemma_int_range, lemma_len_subset, set_int_range};

verus! {

/// `p` lists each of `0..n` exactly once.
pub open spec fn is_permutation(p: Seq<usize>, n: nat) -> bool {
    &&& p.len() == n
    &&& forall|i: int| 0 <= i < p.len() ==> p[i] < n
    &&& p.no_duplicates()
}

/// Fewer than `n` distinct values below `n` leave some value below `n` out.
pub proof fn lemma_missing_index(s: Seq<usize>, n: nat)
    requires
        s.no_duplicates(),
        forall|i: int| 0 <= i < s.len() ==> s[i] < n,
        s.len() < n,
        n <= usize::MAX,
    ensures
        exists|t: usize| t < n && !s.contains(t),
{
    if forall|t: usize| t < n ==> s.contains(t) {
        let ints = s.map_values(|v: usize| v as int);
        assert(ints.no_duplicates()) by {
            assert forall|i: int, j: int|
                0 <= i < ints.len() && 0 <= j < ints.len() && i != j implies ints[i] != ints[j] by {
                assert(s[i] != s[j]);
            }
        }
        ints.unique_seq_to_set();
        lemma_int_range(0, n as int);
        assert(set_int_range(0, n as int).subset_of(ints.to_set())) by {
            assert forall|t: int| set_int_range(0, n as int).contains(t) implies ints.to_set().contains(
                t,
            ) by {
                assert(s.contains(t as usize));
                let i = choose|i: int| 0 <= i < s.len() && s[i] == t as usize;
                assert(ints[i] == t);
            }
        }
        lemma_len_subset(set_int_range(0, n as int), ints.to_set());
    }
}

/// A sequence that lists the elements of `b` in the order a permutation
/// gives holds the same multiset of elements as `b`.
pub proof fn lemma_permuted_multiset<A>(a: Seq<A>, b: Seq<A>, perm: Seq<usize>)
    requires
        is_permutation(perm, b.len()),
        a.len() == b.len(),
        forall|d: int| 0 <= d < a.len() ==> a[d] == b[perm[d] as int],
    ensures
        a.to_multiset() == b.to_multiset(),
    decreases a.len(),
{
    broadcast use vstd::seq_lib::group_to_multiset_ensures;

    let n = a.len();
    if n == 0 {
        assert(a =~= Seq::<A>::empty());
        assert(b =~= Seq::<A>::empty());
    } else {
        let s = perm[n - 1] as int;
        let a2 = a.drop_last();
        let b2 = b.remove(s);
        let perm2 = Seq::new(
            (n - 1) as nat,
            |d: int|
                if perm[d] > s {
                    (perm[d] - 1) as usize
                } else {
                    perm[d]
                },
        );
        assert forall|d: int| 0 <= d < perm2.len() implies perm2[d] < n - 1 by {
            assert(perm[d] != perm[n - 1]);
        }
        assert(perm2.no_duplicates()) by {
            assert forall|i: int, j: int|
                0 <= i < perm2.len() && 0 <= j < perm2.len() && i != j implies perm2[i] != perm2[j] by {
                assert(perm[i] != perm[j]);
                assert(perm[i] != perm[n - 1]);
                assert(perm[j] != perm[n - 1]);
            }
        }
        assert forall|d: int| 0 <= d < a2.len() implies a2[d] == b2[perm2[d] as int] by {
            assert(perm[d] != perm[n - 1]);
        }
        lemma_permuted_multiset(a2, b2, perm2);
        assert(a2.push(a[n - 1]) =~= a);
        assert(b.remove(s).to_multiset() == b.to_multiset().remove(b[s]));
        assert(b.to_multiset().contains(b[s])) by {
            assert(b.contains(b[s]));
        }
        assert(b2.to_multiset().insert(b[s]) =~= b.to_multiset());
    }
}

} // verus!
