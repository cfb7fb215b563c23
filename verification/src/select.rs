//! Keeping some elements of a sequence and making something of each.

use vstd::prelude::*;

verus! {

/// The elements of `s` that `keep` holds of, each turned by `make`, in order.
pub open spec fn select<A, B>(s: Seq<A>, keep: spec_fn(A) -> bool, make: spec_fn(A) -> B) -> Seq<B> {
    s.filter(keep).map_values(make)
}

/// Nothing is selected from the empty sequence.
pub proof fn lemma_select_empty<A, B>(keep: spec_fn(A) -> bool, make: spec_fn(A) -> B)
    ensures
        select(Seq::<A>::empty(), keep, make) == Seq::<B>::empty(),
{
    reveal(Seq::filter);
    assert(select(Seq::<A>::empty(), keep, make) =~= Seq::<B>::empty());
}

/// Selecting from a sequence with one more element at its end.
pub proof fn lemma_select_push<A, B>(
    s: Seq<A>,
    x: A,
    keep: spec_fn(A) -> bool,
    make: spec_fn(A) -> B,
)
    ensures
        select(s.push(x), keep, make) == if keep(x) {
            select(s, keep, make).push(make(x))
        } else {
            select(s, keep, make)
        },
{
    s.lemma_filter_push(x, keep);
    if keep(x) {
        s.filter(keep).lemma_push_map_commute(make, x);
    }
}

/// Where `keep` holds of every element, every element is selected.
pub proof fn lemma_select_all<A, B>(s: Seq<A>, keep: spec_fn(A) -> bool, make: spec_fn(A) -> B)
    requires
        forall|i: int| 0 <= i < s.len() ==> keep(#[trigger] s[i]),
    ensures
        select(s, keep, make) == s.map_values(make),
    decreases s.len(),
{
    if s.len() == 0 {
        lemma_select_empty(keep, make);
        assert(s.map_values(make) =~= Seq::<B>::empty());
    } else {
        let front = s.drop_last();
        assert(forall|i: int| 0 <= i < front.len() ==> front[i] == s[i]);
        lemma_select_all(front, keep, make);
        lemma_select_push(front, s.last(), keep, make);
        assert(s =~= front.push(s.last()));
        assert(s.map_values(make) =~= front.map_values(make).push(make(s.last())));
    }
}

/// Where `keep` holds of no element, nothing is selected.
pub proof fn lemma_select_none<A, B>(s: Seq<A>, keep: spec_fn(A) -> bool, make: spec_fn(A) -> B)
    requires
        forall|i: int| 0 <= i < s.len() ==> !keep(#[trigger] s[i]),
    ensures
        select(s, keep, make) == Seq::<B>::empty(),
    decreases s.len(),
{
    if s.len() == 0 {
        lemma_select_empty(keep, make);
    } else {
        let front = s.drop_last();
        assert(forall|i: int| 0 <= i < front.len() ==> front[i] == s[i]);
        lemma_select_none(front, keep, make);
        lemma_select_push(front, s.last(), keep, make);
        assert(s =~= front.push(s.last()));
    }
}

} // verus!
