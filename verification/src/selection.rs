//! Facts about picking elements out of a sequence in order
//! (`Seq::filter_map`): what is picked keeps its place among the picked.

use vstd::prelude::*;

verus! {

/// How many of the first `k` elements are picked.
pub open spec fn picked_before<A, B>(s: Seq<A>, f: spec_fn(A) -> Option<B>, k: int) -> int {
    s.take(k).filter_map(f).len() as int
}

/// What is picked from a prefix is a prefix of what is picked from the whole.
pub proof fn lemma_prefix_is_picked_first<A, B>(s: Seq<A>, f: spec_fn(A) -> Option<B>, k: int)
    requires
        0 <= k <= s.len(),
    ensures
        picked_before(s, f, k) <= s.filter_map(f).len(),
        s.take(k).filter_map(f) == s.filter_map(f).take(picked_before(s, f, k)),
    decreases s.len(),
{
    if k == s.len() {
        assert(s.take(k) =~= s);
        assert(s.filter_map(f).take(s.filter_map(f).len() as int) =~= s.filter_map(f));
    } else {
        let shorter = s.drop_last();
        lemma_prefix_is_picked_first(shorter, f, k);
        assert(shorter.take(k) =~= s.take(k));
        let n = picked_before(s, f, k);
        assert(shorter.filter_map(f).take(n) =~= s.filter_map(f).take(n));
    }
}

/// Picking from one element more adds what that element gives, if anything.
pub proof fn lemma_picked_step<A, B>(s: Seq<A>, f: spec_fn(A) -> Option<B>, k: int)
    requires
        0 <= k < s.len(),
    ensures
        s.take(k + 1).filter_map(f) == (match f(s[k]) {
            Some(b) => s.take(k).filter_map(f).push(b),
            None => s.take(k).filter_map(f),
        }),
{
    assert(s.take(k + 1).drop_last() =~= s.take(k));
    assert(s.take(k + 1).last() == s[k]);
    match f(s[k]) {
        Some(b) => {
            assert(s.take(k).filter_map(f) + seq![b] =~= s.take(k).filter_map(f).push(b));
        },
        None => {},
    }
}

/// An element that is picked stands among the picked at the place that the
/// picked elements before it leave free.
pub proof fn lemma_picked_has_its_place<A, B>(s: Seq<A>, f: spec_fn(A) -> Option<B>, i: int)
    requires
        0 <= i < s.len(),
        f(s[i]) is Some,
    ensures
        0 <= picked_before(s, f, i) < s.filter_map(f).len(),
        s.filter_map(f)[picked_before(s, f, i)] == f(s[i])->Some_0,
{
    lemma_picked_step(s, f, i);
    lemma_prefix_is_picked_first(s, f, i + 1);
    let place = picked_before(s, f, i);
    assert(s.take(i + 1).filter_map(f)[place] == f(s[i])->Some_0);
}

/// Of two picked elements the earlier one stands earlier among the picked.
pub proof fn lemma_picked_keep_their_order<A, B>(
    s: Seq<A>,
    f: spec_fn(A) -> Option<B>,
    i: int,
    j: int,
)
    requires
        0 <= i < j < s.len(),
        f(s[i]) is Some,
    ensures
        picked_before(s, f, i) < picked_before(s, f, j),
{
    let upto = s.take(j);
    lemma_picked_step(upto, f, i);
    lemma_prefix_is_picked_first(upto, f, i + 1);
    assert(upto.take(i) =~= s.take(i));
    assert(upto.take(i + 1) =~= s.take(i + 1));
}

/// Every place among the picked is the place of an element that is picked.
pub proof fn lemma_place_has_its_picked<A, B>(s: Seq<A>, f: spec_fn(A) -> Option<B>, place: int)
    requires
        0 <= place < s.filter_map(f).len(),
    ensures
        exists|i: int|
            0 <= i < s.len() && f(s[i]) is Some && #[trigger] picked_before(s, f, i) == place,
    decreases s.len(),
{
    let shorter = s.drop_last();
    let last = s.len() - 1;
    assert(shorter =~= s.take(last));
    if place < shorter.filter_map(f).len() {
        lemma_place_has_its_picked(shorter, f, place);
        let i = choose|i: int|
            0 <= i < shorter.len() && f(shorter[i]) is Some && #[trigger] picked_before(
                shorter,
                f,
                i,
            ) == place;
        assert(shorter.take(i) =~= s.take(i));
        assert(picked_before(s, f, i) == place);
    } else {
        assert(f(s[last]) is Some);
        assert(picked_before(s, f, last) == place);
    }
}

} // verus!
