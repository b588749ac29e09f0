//! Two facts about membership in a sequence that the proofs of the other
//! modules share.

use vstd::prelude::*;

verus! {

/// What is in `first + then` is in `first` or in `then`, and the other way
/// round.
pub proof fn lemma_contains_concat<A>(first: Seq<A>, then: Seq<A>, item: A)
    ensures
        (first + then).contains(item) <==> first.contains(item) || then.contains(item),
{
    let all = first + then;
    if all.contains(item) {
        let k = choose|k: int| 0 <= k < all.len() && all[k] == item;
        if k < first.len() {
            assert(first[k] == item);
        } else {
            assert(then[k - first.len()] == item);
        }
    }
    if first.contains(item) {
        let k = choose|k: int| 0 <= k < first.len() && first[k] == item;
        assert(all[k] == item);
    }
    if then.contains(item) {
        let k = choose|k: int| 0 <= k < then.len() && then[k] == item;
        assert(all[first.len() + k] == item);
    }
}

/// What is in `items.push(last)` is in `items` or is `last`, and the other way
/// round.
pub proof fn lemma_contains_push<A>(items: Seq<A>, last: A, item: A)
    ensures
        items.push(last).contains(item) <==> items.contains(item) || item == last,
{
    assert(items.push(last) =~= items + seq![last]);
    lemma_contains_concat(items, seq![last], item);
    if item == last {
        assert(seq![last][0] == item);
    }
}

} // verus!
