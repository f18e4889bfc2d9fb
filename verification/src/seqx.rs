//! Small general sequence lemmas that the stores lean on: how `filter`
//! interacts with `push`, membership and orderings, and bounded prefixes.

use vstd::prelude::*;

verus! {

/// The first `n` elements of a sequence, or all of them when it is shorter.
pub open spec fn prefix_upto<A>(s: Seq<A>, n: int) -> Seq<A> {
    if s.len() <= n {
        s
    } else {
        s.take(n)
    }
}

/// How `filter` acts on one appended element.
pub proof fn lemma_filter_push<A>(s: Seq<A>, x: A, pred: spec_fn(A) -> bool)
    ensures
        (s.push(x)).filter(pred) == if pred(x) {
            s.filter(pred).push(x)
        } else {
            s.filter(pred)
        },
{
    reveal(Seq::filter);
    assert(s.push(x).drop_last() =~= s);
}

/// Every element of a filtered sequence occurs in the original.
pub proof fn lemma_filter_elem_of<A>(s: Seq<A>, pred: spec_fn(A) -> bool)
    ensures
        forall|j: int|
            0 <= j < s.filter(pred).len() ==> s.contains(#[trigger] s.filter(pred)[j]),
    decreases s.len(),
{
    reveal(Seq::filter);
    if s.len() > 0 {
        let dl = s.drop_last();
        lemma_filter_elem_of(dl, pred);
        assert forall|j: int| 0 <= j < s.filter(pred).len() implies s.contains(
            #[trigger] s.filter(pred)[j],
        ) by {
            if j < dl.filter(pred).len() {
                assert(dl.contains(dl.filter(pred)[j]));
                let k = choose|k: int| 0 <= k < dl.len() && dl[k] == dl.filter(pred)[j];
                assert(s[k] == dl[k]);
            } else {
                assert(s.filter(pred)[j] == s.last());
            }
        }
    }
}

/// Whether a sequence is strictly ordered by the given relation.
pub open spec fn pairwise<A>(s: Seq<A>, lt: spec_fn(A, A) -> bool) -> bool {
    forall|i: int, j: int| 0 <= i < j < s.len() ==> lt(#[trigger] s[i], #[trigger] s[j])
}

/// Filtering keeps a sequence ordered.
pub proof fn lemma_filter_keeps_pairwise<A>(
    s: Seq<A>,
    pred: spec_fn(A) -> bool,
    lt: spec_fn(A, A) -> bool,
)
    requires
        pairwise(s, lt),
    ensures
        pairwise(s.filter(pred), lt),
    decreases s.len(),
{
    reveal(Seq::filter);
    if s.len() > 0 {
        let dl = s.drop_last();
        assert(pairwise(dl, lt)) by {
            assert(forall|i: int, j: int| 0 <= i < j < dl.len() ==> #[trigger] dl[i] == s[i]
                && #[trigger] dl[j] == s[j]);
        }
        lemma_filter_keeps_pairwise(dl, pred, lt);
        if pred(s.last()) {
            lemma_filter_elem_of(dl, pred);
            let out = s.filter(pred);
            assert(out == dl.filter(pred).push(s.last()));
            assert forall|i: int, j: int| 0 <= i < j < out.len() implies lt(
                #[trigger] out[i],
                #[trigger] out[j],
            ) by {
                if j < out.len() - 1 {
                    assert(out[i] == dl.filter(pred)[i]);
                    assert(out[j] == dl.filter(pred)[j]);
                } else {
                    assert(out[j] == s.last());
                    assert(out[i] == dl.filter(pred)[i]);
                    assert(dl.contains(dl.filter(pred)[i]));
                    let k = choose|k: int| 0 <= k < dl.len() && dl[k] == dl.filter(pred)[i];
                    assert(s[k] == dl[k]);
                    assert(lt(s[k], s[s.len() - 1]));
                }
            }
        }
    }
}

/// Taking the length of the left summand from a concatenation gives back
/// the left summand.
pub proof fn lemma_take_of_add<A>(a: Seq<A>, b: Seq<A>)
    ensures
        (a + b).take(a.len() as int) == a,
{
    assert((a + b).take(a.len() as int) =~= a);
}

} // verus!
