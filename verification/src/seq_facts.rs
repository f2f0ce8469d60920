//! Small general facts about sequences that the scheduling proofs lean on.

use vstd::prelude::*;

verus! {

/// Filtering after a push keeps the filtered prefix and appends the new
/// element exactly when it satisfies the predicate.
pub proof fn lemma_filter_push<A>(s: Seq<A>, x: A, pred: spec_fn(A) -> bool)
    ensures
        s.push(x).filter(pred) == if pred(x) {
            s.filter(pred).push(x)
        } else {
            s.filter(pred)
        },
{
    reveal(Seq::filter);
    assert(s.push(x).drop_last() =~= s);
}

/// Every element of a filtered sequence occurs in the sequence it came from.
pub proof fn lemma_filter_subset<A>(s: Seq<A>, pred: spec_fn(A) -> bool, i: int)
    requires
        0 <= i < s.filter(pred).len(),
    ensures
        s.contains(s.filter(pred)[i]),
    decreases s.len(),
{
    reveal(Seq::filter);
    if s.len() > 0 {
        let prefix = s.drop_last();
        if pred(s.last()) && i == s.filter(pred).len() - 1 {
            assert(s[s.len() - 1] == s.filter(pred)[i]);
        } else {
            lemma_filter_subset(prefix, pred, i);
            let x = prefix.filter(pred)[i];
            let j = choose|j: int| 0 <= j < prefix.len() && prefix[j] == x;
            assert(s[j] == x);
        }
    }
}

/// A filter that accepts every element leaves the sequence unchanged.
pub proof fn lemma_filter_all<A>(s: Seq<A>, pred: spec_fn(A) -> bool)
    requires
        forall|i: int| 0 <= i < s.len() ==> pred(#[trigger] s[i]),
    ensures
        s.filter(pred) == s,
    decreases s.len(),
{
    reveal(Seq::filter);
    if s.len() > 0 {
        lemma_filter_all(s.drop_last(), pred);
        assert(s.drop_last().push(s.last()) =~= s);
    }
}

/// A filter that rejects every element leaves nothing.
pub proof fn lemma_filter_none<A>(s: Seq<A>, pred: spec_fn(A) -> bool)
    requires
        forall|i: int| 0 <= i < s.len() ==> !pred(#[trigger] s[i]),
    ensures
        s.filter(pred) == Seq::<A>::empty(),
    decreases s.len(),
{
    reveal(Seq::filter);
    if s.len() > 0 {
        lemma_filter_none(s.drop_last(), pred);
    }
}

/// Appending only empty sequences does not change a flattened sequence.
pub proof fn lemma_flatten_empty_suffix<A>(a: Seq<Seq<A>>, b: Seq<Seq<A>>)
    requires
        forall|j: int| 0 <= j < b.len() ==> (#[trigger] b[j]).len() == 0,
    ensures
        (a + b).flatten() == a.flatten(),
    decreases b.len(),
{
    if b.len() == 0 {
        assert(a + b =~= a);
    } else {
        assert(a + b =~= (a + b.drop_last()).push(b.last()));
        (a + b.drop_last()).lemma_flatten_push(b.last());
        assert(b.last() =~= Seq::<A>::empty());
        assert((a + b.drop_last()).flatten() + b.last() =~= (a + b.drop_last()).flatten());
        lemma_flatten_empty_suffix(a, b.drop_last());
    }
}

} // verus!
