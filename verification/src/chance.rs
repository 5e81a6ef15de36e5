//! What the simulation leaves to chance.

use rand::Rng;
use vstd::prelude::*;

verus! {

/// Whether `after` holds the items of `before` in the order that `order`
/// gives: `order` names every position of `before` once, and `after[i]` is
/// the item that stood at `order[i]`.
pub open spec fn rearranges<T>(order: Seq<int>, before: Seq<T>, after: Seq<T>) -> bool {
    &&& order.len() == before.len()
    &&& after.len() == before.len()
    &&& forall|i: int| 0 <= i < order.len() ==> 0 <= #[trigger] order[i] < before.len()
    &&& forall|i: int, j: int| 0 <= i < j < order.len() ==> order[i] != order[j]
    &&& forall|i: int| 0 <= i < after.len() ==> #[trigger] after[i] == before[order[i]]
}

/// Whether `after` holds the items of `before`, each once, in some order.
pub open spec fn rearranged<T>(before: Seq<T>, after: Seq<T>) -> bool {
    exists|order: Seq<int>| rearranges(order, before, after)
}

/// One byte from `rand::thread_rng()`, by `Rng::gen`. The byte is whatever
/// the generator gives: nothing is claimed of it. The generator is seeded
/// from the system when a thread first uses it.
#[verifier::external_body]
pub(crate) fn random_byte() -> (byte: u8) {
    rand::thread_rng().gen()
}

/// `Rng::shuffle` of `rand::thread_rng()` on the items of `items`. The call
/// walks the slice from its end and swaps each item with one at or before
/// it, so what comes out holds the same items, each once; in which order is
/// left to the generator.
#[verifier::external_body]
pub(crate) fn shuffle<T>(items: &mut Vec<T>)
    ensures
        rearranged(old(items)@, final(items)@),
{
    rand::thread_rng().shuffle(items.as_mut_slice());
}

} // verus!
