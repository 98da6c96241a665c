//! Sorting of durations held as nanosecond counts.

use crate::model::{ascending, lemma_ascending, lemma_ascending_unique};
use vstd::multiset::group_multiset_axioms;
use vstd::prelude::*;
use vstd::seq_lib::{group_to_multiset_ensures, to_multiset_contains, to_multiset_len};

verus! {

/// The nanosecond counts as natural numbers.
pub open spec fn lengths(nanos: Seq<u128>) -> Seq<nat> {
    nanos.map_values(|n: u128| n as nat)
}

/// Sorts `nanos` in place with the standard library's `slice::sort`, which
/// `Vec` offers as `sort`. Nothing of this is proved here. The contract is
/// what that function documents for items with a total order, as integers
/// have: afterwards the same items, each as often as before, stand in
/// ascending order.
#[verifier::external_body]
fn sort_nanos(nanos: &mut Vec<u128>)
    ensures
        final(nanos)@.to_multiset() == old(nanos)@.to_multiset(),
        forall|i: int, j: int|
            0 <= i <= j < final(nanos)@.len() ==> final(nanos)@[i] <= final(nanos)@[j],
{
    nanos.sort();
}

/// Two sequences that hold the same items still do so after a function is
/// applied to every item.
pub proof fn lemma_map_keeps_items<A, B>(a: Seq<A>, b: Seq<A>, f: spec_fn(A) -> B)
    requires
        a.to_multiset() == b.to_multiset(),
    ensures
        a.map_values(f).to_multiset() == b.map_values(f).to_multiset(),
    decreases a.len(),
{
    broadcast use group_to_multiset_ensures;
    broadcast use group_multiset_axioms;

    to_multiset_len(a);
    to_multiset_len(b);
    if a.len() == 0 {
        assert(b.len() == 0);
        assert(a.map_values(f) =~= b.map_values(f));
    } else {
        let x = a.last();
        let a1 = a.drop_last();
        assert(a =~= a1.push(x));
        assert(a.contains(x));
        to_multiset_contains(a, x);
        to_multiset_contains(b, x);
        assert(b.contains(x));
        let k = choose|k: int| 0 <= k < b.len() && b[k] == x;
        let b1 = b.remove(k);
        assert(a1.to_multiset() =~= a.to_multiset().remove(x));
        assert(b1.to_multiset() =~= b.to_multiset().remove(x));
        lemma_map_keeps_items(a1, b1, f);
        let fa = a.map_values(f);
        let fb = b.map_values(f);
        assert(fa =~= a1.map_values(f).push(f(x)));
        assert(fb.remove(k) =~= b1.map_values(f));
        assert(fb.remove(k).to_multiset() =~= fb.to_multiset().remove(fb[k]));
        assert(fb.to_multiset().count(fb[k]) > 0);
        assert(fb.to_multiset() =~= fb.remove(k).to_multiset().insert(f(x)));
    }
}

/// Where `b` is `a` sorted, it is as long as `a`, and what bounds every item
/// of `a` bounds every item of `b`.
pub proof fn lemma_sorted_keeps_bound(a: Seq<u128>, b: Seq<u128>, bound: u128)
    requires
        lengths(b) == ascending(lengths(a)),
        forall|i: int| 0 <= i < a.len() ==> a[i] <= bound,
    ensures
        b.len() == a.len(),
        forall|i: int| 0 <= i < b.len() ==> b[i] <= bound,
{
    lemma_ascending(lengths(a));
    assert(lengths(b).len() == b.len());
    assert forall|i: int| 0 <= i < b.len() implies b[i] <= bound by {
        let x = lengths(b)[i];
        assert(lengths(b).contains(x));
        to_multiset_contains(lengths(b), x);
        to_multiset_contains(lengths(a), x);
        let k = choose|k: int| 0 <= k < lengths(a).len() && lengths(a)[k] == x;
        assert(a[k] <= bound);
    }
}

/// Sorts `nanos` into ascending order.
pub fn sort_ascending(nanos: &mut Vec<u128>)
    ensures
        lengths(final(nanos)@) == ascending(lengths(old(nanos)@)),
{
    sort_nanos(nanos);
    proof {
        let before = lengths(old(nanos)@);
        let after = lengths(nanos@);
        lemma_map_keeps_items(nanos@, old(nanos)@, |n: u128| n as nat);
        assert forall|i: int, j: int| 0 <= i <= j < after.len() implies after[i] <= after[j] by {
            assert(nanos@[i] <= nanos@[j]);
        }
        lemma_ascending_unique(before, after);
    }
}

} // verus!
