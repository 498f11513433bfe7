//! Sequences in ascending order: such a sequence is determined by its elements.

use vstd::prelude::*;

verus! {

/// Whether `s` ascends strictly by `before`.
pub open spec fn ascending<A>(s: Seq<A>, before: spec_fn(A, A) -> bool) -> bool {
    forall|i: int, j: int| 0 <= i < j < s.len() ==> before(#[trigger] s[i], #[trigger] s[j])
}

/// Whether every element of `a` is an element of `b`.
pub open spec fn included<A>(a: Seq<A>, b: Seq<A>) -> bool {
    forall|i: int| 0 <= i < a.len() ==> b.contains(#[trigger] a[i])
}

/// Whether `before` never holds both ways round.
pub open spec fn asymmetric<A>(before: spec_fn(A, A) -> bool) -> bool {
    forall|x: A, y: A| !(#[trigger] before(x, y) && #[trigger] before(y, x))
}

/// Two ascending sequences with the same elements are the same sequence.
pub proof fn lemma_ascending_unique<A>(a: Seq<A>, b: Seq<A>, before: spec_fn(A, A) -> bool)
    requires
        asymmetric(before),
        ascending(a, before),
        ascending(b, before),
        included(a, b),
        included(b, a),
    ensures
        a == b,
    decreases a.len(),
{
    if a.len() == 0 {
        if b.len() > 0 {
            assert(a.contains(b[0]));
        }
        assert(a =~= b);
    } else {
        assert(b.contains(a[0]));
        let j = choose|j: int| 0 <= j < b.len() && b[j] == a[0];
        assert(a.contains(b[0]));
        let k = choose|k: int| 0 <= k < a.len() && a[k] == b[0];
        if j > 0 && k > 0 {
            assert(before(b[0], b[j]));
            assert(before(a[0], a[k]));
        }
        assert(a[0] == b[0]);
        let a_rest = a.drop_first();
        let b_rest = b.drop_first();
        assert forall|i: int, m: int| 0 <= i < m < a_rest.len() implies before(
            #[trigger] a_rest[i],
            #[trigger] a_rest[m],
        ) by {
            assert(before(a[i + 1], a[m + 1]));
        }
        assert forall|i: int, m: int| 0 <= i < m < b_rest.len() implies before(
            #[trigger] b_rest[i],
            #[trigger] b_rest[m],
        ) by {
            assert(before(b[i + 1], b[m + 1]));
        }
        assert forall|i: int| 0 <= i < a_rest.len() implies b_rest.contains(
            #[trigger] a_rest[i],
        ) by {
            assert(b.contains(a[i + 1]));
            let m = choose|m: int| 0 <= m < b.len() && b[m] == a[i + 1];
            assert(before(a[0], a[i + 1]));
            if m == 0 {
                assert(before(a[0], a[0]));
            }
            assert(b_rest[m - 1] == a_rest[i]);
        }
        assert forall|i: int| 0 <= i < b_rest.len() implies a_rest.contains(
            #[trigger] b_rest[i],
        ) by {
            assert(a.contains(b[i + 1]));
            let m = choose|m: int| 0 <= m < a.len() && a[m] == b[i + 1];
            assert(before(b[0], b[i + 1]));
            if m == 0 {
                assert(before(b[0], b[0]));
            }
            assert(a_rest[m - 1] == b_rest[i]);
        }
        lemma_ascending_unique(a_rest, b_rest, before);
        assert(a =~= seq![a[0]] + a_rest);
        assert(b =~= seq![b[0]] + b_rest);
    }
}

} // verus!
