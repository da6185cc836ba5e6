//! Facts about selecting from a sequence: what `Seq::filter` keeps, where
//! the kept items stood, and how selecting and mapping go together.

use vstd::prelude::*;

verus! {

/// The positions in `items` of those that `keep` accepts, in rising order.
pub open spec fn kept_positions<A>(items: Seq<A>, keep: spec_fn(A) -> bool) -> Seq<int>
    decreases items.len(),
{
    if items.len() == 0 {
        Seq::empty()
    } else if keep(items.last()) {
        kept_positions(items.drop_last(), keep).push(items.len() - 1)
    } else {
        kept_positions(items.drop_last(), keep)
    }
}

/// `chosen` is `items` cut down to the positions `at`: the positions rise
/// strictly, each lies in `items`, and `chosen` holds the items that stand
/// there, one for one and in that order.
pub open spec fn picks<A>(at: Seq<int>, items: Seq<A>, chosen: Seq<A>) -> bool {
    &&& at.len() == chosen.len()
    &&& forall|k: int| 0 <= k < at.len() ==> 0 <= #[trigger] at[k] < items.len()
    &&& forall|k: int| 0 <= k < at.len() ==> #[trigger] chosen[k] == items[at[k]]
    &&& forall|j: int, k: int| 0 <= j < k < at.len() ==> at[j] < at[k]
}

/// A position is among those kept exactly where it lies in `items` and
/// `keep` accepts the item that stands there.
pub proof fn lemma_kept_positions_are_the_accepted<A>(items: Seq<A>, keep: spec_fn(A) -> bool)
    ensures
        forall|i: int|
            kept_positions(items, keep).contains(i) <==> 0 <= i < items.len() && keep(items[i]),
    decreases items.len(),
{
    let at = kept_positions(items, keep);
    if items.len() > 0 {
        let front = items.drop_last();
        let before = kept_positions(front, keep);
        let last = items.len() - 1;
        lemma_kept_positions_are_the_accepted(front, keep);
        assert forall|i: int| at.contains(i) <==> 0 <= i < items.len() && keep(items[i]) by {
            if keep(items.last()) {
                if at.contains(i) {
                    let k = choose|k: int| 0 <= k < at.len() && at[k] == i;
                    if k < before.len() {
                        assert(before.contains(i));
                    }
                }
                if 0 <= i < items.len() && keep(items[i]) {
                    if i == last {
                        assert(at[at.len() - 1] == i);
                    } else {
                        assert(before.contains(i));
                        let k = choose|k: int| 0 <= k < before.len() && before[k] == i;
                        assert(at[k] == i);
                    }
                }
            }
        }
    }
}

/// Filtering cuts a sequence down to the positions of the accepted items
/// and changes nothing else: the items that stay are those that stood at
/// these positions, in the order in which they stood there.
pub proof fn lemma_filter_picks_kept_positions<A>(items: Seq<A>, keep: spec_fn(A) -> bool)
    ensures
        picks(kept_positions(items, keep), items, items.filter(keep)),
    decreases items.len(),
{
    reveal(Seq::filter);
    if items.len() > 0 {
        lemma_filter_picks_kept_positions(items.drop_last(), keep);
    }
}

/// Filtering returns exactly the accepted items, in their order: it picks
/// the positions of the accepted items and no others, so each item that
/// stays is an accepted item of the sequence, and each accepted item stays.
pub proof fn lemma_filter_selects_the_accepted<A>(items: Seq<A>, keep: spec_fn(A) -> bool)
    ensures
        picks(kept_positions(items, keep), items, items.filter(keep)),
        forall|i: int|
            kept_positions(items, keep).contains(i) <==> 0 <= i < items.len() && keep(items[i]),
        forall|k: int|
            0 <= k < items.filter(keep).len() ==> items.contains(#[trigger] items.filter(keep)[k])
                && keep(items.filter(keep)[k]),
        forall|i: int|
            0 <= i < items.len() && keep(#[trigger] items[i]) ==> items.filter(keep).contains(
                items[i],
            ),
{
    let at = kept_positions(items, keep);
    let chosen = items.filter(keep);
    lemma_filter_picks_kept_positions(items, keep);
    lemma_kept_positions_are_the_accepted(items, keep);
    assert forall|i: int| 0 <= i < items.len() && keep(#[trigger] items[i]) implies chosen.contains(
        items[i],
    ) by {
        assert(at.contains(i));
    }
}

/// Where `keep` accepts every item, filtering keeps the whole sequence.
pub proof fn lemma_filter_keeps_all<A>(items: Seq<A>, keep: spec_fn(A) -> bool)
    requires
        forall|i: int| 0 <= i < items.len() ==> keep(#[trigger] items[i]),
    ensures
        items.filter(keep) == items,
    decreases items.len(),
{
    reveal(Seq::filter);
    if items.len() > 0 {
        lemma_filter_keeps_all(items.drop_last(), keep);
    }
}

/// Selecting by a test on the image of each item and then mapping gives
/// what mapping first and then selecting by the test itself gives.
pub proof fn lemma_filter_then_map<A, B>(
    items: Seq<A>,
    image: spec_fn(A) -> B,
    keep: spec_fn(B) -> bool,
)
    ensures
        items.filter(|item: A| keep(image(item))).map_values(image) == items.map_values(
            image,
        ).filter(keep),
    decreases items.len(),
{
    reveal(Seq::filter);
    if items.len() > 0 {
        let front = items.drop_last();
        lemma_filter_then_map(front, image, keep);
        assert(items.map_values(image).drop_last() =~= front.map_values(image));
    }
}

} // verus!
