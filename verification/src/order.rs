//! Parts of sequences, in order.
use vstd::prelude::*;

verus! {

/// Whether `part` holds the elements at the places `at` of `whole`, in the
/// order in which they stand there.
pub open spec fn is_selection<T>(part: Seq<T>, whole: Seq<T>, at: Seq<int>) -> bool {
    &&& part.len() == at.len()
    &&& forall|i: int|
        0 <= i < at.len() ==> 0 <= #[trigger] at[i] < whole.len() && part[i] == whole[at[i]]
    &&& forall|i: int, j: int| 0 <= i < j < at.len() ==> #[trigger] at[i] < #[trigger] at[j]
}

/// The places of `whole` at which `p` holds, in order.
pub open spec fn places<T>(whole: Seq<T>, p: spec_fn(T) -> bool) -> Seq<int>
    decreases whole.len(),
{
    if whole.len() == 0 {
        Seq::empty()
    } else if p(whole.last()) {
        places(whole.drop_last(), p).push(whole.len() - 1)
    } else {
        places(whole.drop_last(), p)
    }
}

/// Filtering selects exactly the places at which the predicate holds.
pub proof fn filter_selects<T>(whole: Seq<T>, p: spec_fn(T) -> bool)
    ensures
        is_selection(whole.filter(p), whole, places(whole, p)),
        forall|k: int| #![trigger whole[k]]
            0 <= k < whole.len() ==> (places(whole, p).contains(k) <==> p(whole[k])),
        forall|i: int| 0 <= i < places(whole, p).len() ==> 0 <= #[trigger] places(whole, p)[i]
            < whole.len(),
    decreases whole.len(),
{
    reveal(Seq::filter);
    if whole.len() > 0 {
        let init = whole.drop_last();
        let n = whole.len() - 1;
        let before = places(init, p);
        let after = places(whole, p);
        filter_selects(init, p);
        assert forall|i: int| 0 <= i < after.len() implies 0 <= #[trigger] after[i] < whole.len()
            && whole.filter(p)[i] == whole[after[i]] by {
            if i < before.len() {
                assert(after[i] == before[i]);
                assert(init[before[i]] == whole[before[i]]);
            }
        }
        assert forall|i: int, j: int| 0 <= i < j < after.len() implies #[trigger] after[i]
            < #[trigger] after[j] by {
            assert(after[i] == before[i]);
            if j < before.len() {
                assert(after[j] == before[j]);
            }
        }
        assert forall|k: int| #![trigger whole[k]] 0 <= k < whole.len() implies (after.contains(k)
            <==> p(whole[k])) by {
            if k < n {
                assert(init[k] == whole[k]);
                if before.contains(k) {
                    let i = choose|i: int| 0 <= i < before.len() && before[i] == k;
                    assert(after[i] == k);
                }
                if after.contains(k) {
                    let i = choose|i: int| 0 <= i < after.len() && after[i] == k;
                    assert(before[i] == k);
                }
            } else {
                if p(whole.last()) {
                    assert(after[before.len() as int] == n);
                }
                if after.contains(n) && !p(whole.last()) {
                    let i = choose|i: int| 0 <= i < after.len() && after[i] == n;
                    assert(before[i] < init.len());
                }
            }
        }
    }
}

} // verus!
