//! General facts about `Seq::filter` that the store's contracts lean on:
//! how filtering interacts with `push`, how filtered elements embed into the
//! original sequence, and how nested filters collapse.

use vstd::prelude::*;

verus! {

/// Filtering a sequence extended by one element keeps the old result and
/// appends the new element exactly when it satisfies the predicate.
pub broadcast proof fn lemma_filter_push<A>(s: Seq<A>, x: A, pred: spec_fn(A) -> bool)
    ensures
        #[trigger] s.push(x).filter(pred) == if pred(x) {
            s.filter(pred).push(x)
        } else {
            s.filter(pred)
        },
{
    reveal(Seq::filter);
    assert(s.push(x).drop_last() =~= s);
    assert(s.push(x).last() == x);
}

/// Every element of a filtered sequence is an element of the original.
pub broadcast proof fn lemma_filter_sub<A>(s: Seq<A>, pred: spec_fn(A) -> bool, k: int)
    requires
        0 <= k < s.filter(pred).len(),
    ensures
        exists|i: int| 0 <= i < s.len() && (#[trigger] s.filter(pred)[k]) == s[i],
    decreases s.len(),
{
    reveal(Seq::filter);
    let sub = s.drop_last().filter(pred);
    if k < sub.len() {
        lemma_filter_sub(s.drop_last(), pred, k);
        let i = choose|i: int| 0 <= i < s.drop_last().len() && sub[k] == s.drop_last()[i];
        assert(s.filter(pred)[k] == sub[k]);
        assert(s.filter(pred)[k] == s[i]);
    } else {
        assert(s.filter(pred)[k] == s.last());
        assert(s.filter(pred)[k] == s[s.len() - 1]);
    }
}

/// Any two positions of a filtered sequence come from two positions of the
/// original, in the same order.
pub broadcast proof fn lemma_filter_pairs<A>(
    s: Seq<A>,
    pred: spec_fn(A) -> bool,
    k1: int,
    k2: int,
)
    requires
        0 <= k1 < k2 < s.filter(pred).len(),
    ensures
        exists|i1: int, i2: int|
            0 <= i1 < i2 < s.len() && (#[trigger] s.filter(pred)[k1]) == s[i1] && (
            #[trigger] s.filter(pred)[k2]) == s[i2],
    decreases s.len(),
{
    reveal(Seq::filter);
    let sub = s.drop_last().filter(pred);
    if k2 < sub.len() {
        lemma_filter_pairs(s.drop_last(), pred, k1, k2);
        let (i1, i2) = choose|i1: int, i2: int|
            0 <= i1 < i2 < s.drop_last().len() && sub[k1] == s.drop_last()[i1] && sub[k2]
                == s.drop_last()[i2];
        assert(s.filter(pred)[k1] == s[i1] && s.filter(pred)[k2] == s[i2]);
    } else {
        lemma_filter_sub(s.drop_last(), pred, k1);
        let i1 = choose|i1: int| 0 <= i1 < s.drop_last().len() && sub[k1] == s.drop_last()[i1];
        assert(s.filter(pred)[k2] == s.last());
        assert(s.filter(pred)[k1] == s[i1] && s.filter(pred)[k2] == s[s.len() - 1]);
    }
}

/// A filter that accepts every element returns the sequence unchanged.
pub broadcast proof fn lemma_filter_all<A>(s: Seq<A>, pred: spec_fn(A) -> bool)
    ensures
        (forall|i: int| 0 <= i < s.len() ==> pred(#[trigger] s[i])) ==> (#[trigger] s.filter(
            pred,
        )) == s,
    decreases s.len(),
{
    reveal(Seq::filter);
    if s.len() == 0 {
        assert(s.filter(pred) =~= s);
    } else {
        lemma_filter_all(s.drop_last(), pred);
        if forall|i: int| 0 <= i < s.len() ==> pred(#[trigger] s[i]) {
            assert(forall|i: int|
                0 <= i < s.drop_last().len() ==> pred(#[trigger] s.drop_last()[i]));
            assert(pred(s[s.len() - 1]));
            assert(s.filter(pred) =~= s);
        }
    }
}

/// A filter that rejects every element returns the empty sequence.
pub broadcast proof fn lemma_filter_none<A>(s: Seq<A>, pred: spec_fn(A) -> bool)
    ensures
        (forall|i: int| 0 <= i < s.len() ==> !pred(#[trigger] s[i])) ==> (#[trigger] s.filter(
            pred,
        )) == Seq::<A>::empty(),
    decreases s.len(),
{
    reveal(Seq::filter);
    if s.len() == 0 {
        assert(s.filter(pred) =~= Seq::<A>::empty());
    } else {
        lemma_filter_none(s.drop_last(), pred);
        if forall|i: int| 0 <= i < s.len() ==> !pred(#[trigger] s[i]) {
            assert(forall|i: int|
                0 <= i < s.drop_last().len() ==> !pred(#[trigger] s.drop_last()[i]));
            assert(!pred(s[s.len() - 1]));
        }
    }
}

/// An inner filter that every `q`-element survives can be dropped under an
/// outer filter by `q`.
pub broadcast proof fn lemma_filter_subsumed<A>(s: Seq<A>, p: spec_fn(A) -> bool, q: spec_fn(
    A,
) -> bool)
    ensures
        (forall|i: int| 0 <= i < s.len() && q(#[trigger] s[i]) ==> p(s[i])) ==> (
        #[trigger] s.filter(p).filter(q)) == s.filter(q),
    decreases s.len(),
{
    reveal(Seq::filter);
    if s.len() != 0 {
        lemma_filter_subsumed(s.drop_last(), p, q);
        if forall|i: int| 0 <= i < s.len() && q(#[trigger] s[i]) ==> p(s[i]) {
            assert(forall|i: int|
                0 <= i < s.drop_last().len() && q(#[trigger] s.drop_last()[i]) ==> p(
                    s.drop_last()[i],
                ));
            lemma_filter_push(s.drop_last().filter(p), s.last(), q);
            if p(s.last()) {
                assert(s.filter(p) == s.drop_last().filter(p).push(s.last()));
            } else {
                assert(!q(s[s.len() - 1]));
            }
        }
    }
}

pub broadcast group group_filter_facts {
    lemma_filter_push,
    lemma_filter_sub,
    lemma_filter_pairs,
    lemma_filter_all,
    lemma_filter_none,
    lemma_filter_subsumed,
}

} // verus!
