//! Facts about filtered sequences that several components rest on.

use vstd::prelude::*;

verus! {

/// If `keep` holds of the first `k` items and of no other, filtering by it
/// takes the first `k`.
pub proof fn lemma_filter_is_prefix<A>(s: Seq<A>, keep: spec_fn(A) -> bool, k: int)
    requires
        0 <= k <= s.len(),
        forall|i: int| 0 <= i < k ==> keep(#[trigger] s[i]),
        forall|i: int| k <= i < s.len() ==> !keep(#[trigger] s[i]),
    ensures
        s.filter(keep) == s.take(k),
    decreases s.len(),
{
    reveal(Seq::filter);
    if s.len() == 0 {
        assert(s.take(k) =~= Seq::<A>::empty());
    } else {
        let front = s.drop_last();
        if k == s.len() {
            lemma_filter_is_prefix(front, keep, k - 1);
            assert(front.take(k - 1).push(s.last()) =~= s.take(k));
        } else {
            lemma_filter_is_prefix(front, keep, k);
            assert(front.take(k) =~= s.take(k));
        }
    }
}

/// If `keep` holds of the items from position `k` on and of no other,
/// filtering by it skips the first `k`.
pub proof fn lemma_filter_is_suffix<A>(s: Seq<A>, keep: spec_fn(A) -> bool, k: int)
    requires
        0 <= k <= s.len(),
        forall|i: int| 0 <= i < k ==> !keep(#[trigger] s[i]),
        forall|i: int| k <= i < s.len() ==> keep(#[trigger] s[i]),
    ensures
        s.filter(keep) == s.skip(k),
    decreases s.len(),
{
    reveal(Seq::filter);
    if s.len() == 0 {
        assert(s.skip(k) =~= Seq::<A>::empty());
    } else {
        let front = s.drop_last();
        if k == s.len() {
            lemma_filter_is_suffix(front, keep, k - 1);
            assert(s.skip(k) =~= Seq::<A>::empty());
            assert(front.skip(k - 1) =~= Seq::<A>::empty());
        } else {
            lemma_filter_is_suffix(front, keep, k);
            assert(front.skip(k).push(s.last()) =~= s.skip(k));
        }
    }
}

/// If `keep` holds of every item but the one at position `k`, filtering by
/// it takes that one out.
pub proof fn lemma_filter_drops_one<A>(s: Seq<A>, keep: spec_fn(A) -> bool, k: int)
    requires
        0 <= k < s.len(),
        !keep(s[k]),
        forall|i: int| 0 <= i < s.len() && i != k ==> keep(#[trigger] s[i]),
    ensures
        s.filter(keep) == s.take(k) + s.skip(k + 1),
{
    let front = s.take(k + 1);
    let back = s.skip(k + 1);
    assert(s =~= front + back);
    Seq::filter_distributes_over_add(front, back, keep);
    assert forall|i: int| 0 <= i < k implies keep(#[trigger] front[i]) by {
        assert(front[i] == s[i]);
    }
    lemma_filter_is_prefix(front, keep, k);
    assert forall|i: int| 0 <= i < back.len() implies keep(#[trigger] back[i]) by {
        assert(back[i] == s[i + k + 1]);
    }
    lemma_filter_is_prefix(back, keep, back.len() as int);
    assert(back.take(back.len() as int) =~= back);
    assert(front.take(k) =~= s.take(k));
}

} // verus!
