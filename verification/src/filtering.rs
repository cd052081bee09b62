//! Facts about filtered sequences.

use vstd::prelude::*;

verus! {

/// Whether `rel` holds of every element and each one after it.
pub open spec fn pairwise<A>(s: Seq<A>, rel: spec_fn(A, A) -> bool) -> bool {
    forall|i: int, j: int| 0 <= i < j < s.len() ==> rel(#[trigger] s[i], #[trigger] s[j])
}

/// One element more to filter is one element more kept, or none.
pub proof fn lemma_filter_take_next<A>(s: Seq<A>, i: int, keep: spec_fn(A) -> bool)
    requires
        0 <= i < s.len(),
    ensures
        s.take(i + 1).filter(keep) == if keep(s[i]) {
            s.take(i).filter(keep).push(s[i])
        } else {
            s.take(i).filter(keep)
        },
{
    reveal(Seq::filter);
    assert(s.take(i + 1).drop_last() =~= s.take(i));
}

/// What is kept is what was there and passes.
pub proof fn lemma_filter_contains<A>(s: Seq<A>, keep: spec_fn(A) -> bool, a: A)
    ensures
        s.filter(keep).contains(a) <==> s.contains(a) && keep(a),
    decreases s.len(),
{
    reveal(Seq::filter);
    if s.len() > 0 {
        let init = s.drop_last();
        lemma_filter_contains(init, keep, a);
        assert(s =~= init.push(s.last()));
        vstd::seq_lib::lemma_seq_contains_after_push(init, s.last(), a);
        vstd::seq_lib::lemma_seq_contains_after_push(init.filter(keep), s.last(), a);
    }
}

/// Each element kept was there, and passes.
pub proof fn lemma_filter_index<A>(s: Seq<A>, keep: spec_fn(A) -> bool, i: int)
    requires
        0 <= i < s.filter(keep).len(),
    ensures
        s.contains(s.filter(keep)[i]),
        keep(s.filter(keep)[i]),
{
    assert(s.filter(keep).contains(s.filter(keep)[i]));
    lemma_filter_contains(s, keep, s.filter(keep)[i]);
}

/// Filtering keeps the order of what it keeps.
pub proof fn lemma_filter_pairwise<A>(
    s: Seq<A>,
    keep: spec_fn(A) -> bool,
    rel: spec_fn(A, A) -> bool,
)
    requires
        pairwise(s, rel),
    ensures
        pairwise(s.filter(keep), rel),
    decreases s.len(),
{
    reveal(Seq::filter);
    if s.len() > 0 {
        let init = s.drop_last();
        assert(pairwise(init, rel));
        lemma_filter_pairwise(init, keep, rel);
        let kept = s.filter(keep);
        if keep(s.last()) {
            assert forall|i: int, j: int| 0 <= i < j < kept.len() implies rel(
                #[trigger] kept[i],
                #[trigger] kept[j],
            ) by {
                if j == kept.len() - 1 {
                    lemma_filter_index(init, keep, i);
                    let source = choose|k: int| 0 <= k < init.len() && init[k] == kept[i];
                    assert(s[source] == kept[i]);
                }
            }
        }
    }
}

/// Filtering again changes nothing.
pub proof fn lemma_filter_again<A>(s: Seq<A>, keep: spec_fn(A) -> bool)
    ensures
        s.filter(keep).filter(keep) == s.filter(keep),
    decreases s.len(),
{
    reveal(Seq::filter);
    if s.len() > 0 {
        lemma_filter_again(s.drop_last(), keep);
        if keep(s.last()) {
            assert(s.filter(keep).drop_last() =~= s.drop_last().filter(keep));
        }
    }
}

} // verus!
