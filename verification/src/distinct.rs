//! Sequences that hold nothing twice: what stands in for a set whose order
//! of insertion is kept.

use vstd::prelude::*;

verus! {

/// `order` with `x` appended unless it is already there.
pub open spec fn with_item<A>(order: Seq<A>, x: A) -> Seq<A> {
    if order.contains(x) {
        order
    } else {
        order.push(x)
    }
}

/// `order` after the items of `batch` were inserted one by one, front to back.
pub open spec fn absorb<A>(order: Seq<A>, batch: Seq<A>) -> Seq<A>
    decreases batch.len(),
{
    if batch.len() == 0 {
        order
    } else {
        with_item(absorb(order, batch.drop_last()), batch.last())
    }
}

/// Inserting keeps a duplicate-free sequence duplicate-free and adds the
/// item to the set of its elements.
pub proof fn lemma_with_item<A>(order: Seq<A>, x: A)
    requires
        order.no_duplicates(),
    ensures
        with_item(order, x).no_duplicates(),
        with_item(order, x).to_set() == order.to_set().insert(x),
{
    if order.contains(x) {
        assert(order.to_set().insert(x) =~= order.to_set());
    } else {
        order.lemma_push_to_set_commute(x);
    }
}

/// Absorbing a batch keeps the sequence duplicate-free; the elements afterwards
/// are those held before together with those of the batch.
pub proof fn lemma_absorb<A>(order: Seq<A>, batch: Seq<A>)
    requires
        order.no_duplicates(),
    ensures
        absorb(order, batch).no_duplicates(),
        absorb(order, batch).to_set() == order.to_set().union(batch.to_set()),
    decreases batch.len(),
{
    if batch.len() == 0 {
        assert(batch.to_set() =~= Set::<A>::empty());
        assert(order.to_set().union(batch.to_set()) =~= order.to_set());
    } else {
        let front = batch.drop_last();
        lemma_absorb(order, front);
        lemma_with_item(absorb(order, front), batch.last());
        assert(batch =~= front.push(batch.last()));
        front.lemma_push_to_set_commute(batch.last());
        assert(order.to_set().union(front.to_set()).insert(batch.last()) =~= order.to_set().union(
            batch.to_set(),
        ));
    }
}

/// Absorbing one more item at the end of a batch.
pub proof fn lemma_absorb_push<A>(order: Seq<A>, batch: Seq<A>, x: A)
    ensures
        absorb(order, batch.push(x)) == with_item(absorb(order, batch), x),
{
    assert(batch.push(x).drop_last() =~= batch);
}

/// What was absorbed into nothing holds nothing twice and has the elements
/// of the batch.
pub proof fn lemma_absorb_from_empty<A>(batch: Seq<A>)
    ensures
        absorb(Seq::<A>::empty(), batch).no_duplicates(),
        absorb(Seq::<A>::empty(), batch).to_set() == batch.to_set(),
{
    lemma_absorb(Seq::<A>::empty(), batch);
    assert(Seq::<A>::empty().to_set().union(batch.to_set()) =~= batch.to_set());
}

} // verus!
