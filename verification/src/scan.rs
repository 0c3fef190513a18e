//! The first position at which a check fails. Batches are refused at the
//! first entry that is at fault, and the error names that entry.

use vstd::prelude::*;

verus! {

/// The first position of `passes` that holds `false`, if there is one.
pub open spec fn first_false(passes: Seq<bool>) -> Option<int>
    decreases passes.len(),
{
    if passes.len() == 0 {
        None
    } else {
        match first_false(passes.drop_last()) {
            Some(k) => Some(k),
            None => if passes.last() {
                None
            } else {
                Some(passes.len() - 1)
            },
        }
    }
}

/// `first_false` finds a position that holds `false` and has only `true`
/// in front of it, and finds none only where every position holds `true`.
pub proof fn lemma_first_false(passes: Seq<bool>)
    ensures
        match first_false(passes) {
            Some(k) => 0 <= k < passes.len() && !passes[k] && forall|i: int|
                0 <= i < k ==> #[trigger] passes[i],
            None => forall|i: int| 0 <= i < passes.len() ==> #[trigger] passes[i],
        },
    decreases passes.len(),
{
    if passes.len() > 0 {
        lemma_first_false(passes.drop_last());
        match first_false(passes.drop_last()) {
            Some(k) => {
                assert forall|i: int| 0 <= i < k implies #[trigger] passes[i] by {
                    assert(passes[i] == passes.drop_last()[i]);
                }
                assert(passes[k] == passes.drop_last()[k]);
            },
            None => {
                assert forall|i: int| 0 <= i < passes.len() - 1 implies #[trigger] passes[i] by {
                    assert(passes[i] == passes.drop_last()[i]);
                }
            },
        }
    }
}

/// A position that holds `false` behind positions that all hold `true` is
/// the one that `first_false` finds.
pub proof fn lemma_first_false_is(passes: Seq<bool>, k: int)
    requires
        0 <= k < passes.len(),
        !passes[k],
        forall|i: int| 0 <= i < k ==> #[trigger] passes[i],
    ensures
        first_false(passes) == Some(k),
{
    lemma_first_false(passes);
}

/// Where every position holds `true`, `first_false` finds none.
pub proof fn lemma_first_false_none(passes: Seq<bool>)
    requires
        forall|i: int| 0 <= i < passes.len() ==> #[trigger] passes[i],
    ensures
        first_false(passes) is None,
{
    lemma_first_false(passes);
}

} // verus!
