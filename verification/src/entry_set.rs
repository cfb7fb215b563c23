//! A duplicate-free collection of entries, kept in order of first insertion.
//!
//! The set is a vector that holds nothing twice, not std's hash set: what
//! vstd says of a hash set holds for keys whose hashing it models, which are
//! the integers and `bool`, and nothing can be proved of one keyed by an
//! entry.

use crate::distinct::{
    absorb, lemma_absorb, lemma_absorb_from_empty, lemma_absorb_push, lemma_with_item, with_item,
};
use crate::entry::{same_place, EntryInfo, EntryModel};
use vstd::prelude::*;

verus! {

/// The identity triples of a sequence of entries.
pub open spec fn models(items: Seq<EntryInfo>) -> Seq<EntryModel> {
    items.map_values(|e: EntryInfo| e@)
}

/// True when some entry of `order` is at the place of `e`.
pub open spec fn has_place(order: Seq<EntryModel>, e: EntryModel) -> bool {
    exists|i: int| 0 <= i < order.len() && same_place(#[trigger] order[i], e)
}

/// True when `i` is the position of the first entry of `order` at the place of `e`.
pub open spec fn leads(order: Seq<EntryModel>, e: EntryModel, i: int) -> bool {
    &&& 0 <= i < order.len()
    &&& same_place(order[i], e)
    &&& forall|j: int| 0 <= j < i ==> !same_place(#[trigger] order[j], e)
}

/// The position of the first entry of `order` at the place of `e`, where
/// there is one.
pub open spec fn first_place(order: Seq<EntryModel>, e: EntryModel) -> int {
    choose|i: int| leads(order, e, i)
}

/// There is one first position at most.
pub proof fn lemma_first_place(order: Seq<EntryModel>, e: EntryModel, i: int)
    requires
        leads(order, e, i),
    ensures
        first_place(order, e) == i,
{
    let c = first_place(order, e);
    assert(leads(order, e, c));
    if c < i {
        assert(!same_place(order[c], e));
    }
    if i < c {
        assert(!same_place(order[i], e));
    }
}

/// A set of entries under full identity (kind, path and size).
///
/// The entries are held in the order in which they were first inserted, and
/// no entry is held twice.
#[derive(Debug, Eq)]
pub struct EntrySet {
    items: Vec<EntryInfo>,
}

impl View for EntrySet {
    type V = Set<EntryModel>;

    open spec fn view(&self) -> Set<EntryModel> {
        self.order().to_set()
    }
}

impl EntrySet {
    #[verifier::type_invariant]
    spec fn distinct(self) -> bool {
        models(self.items@).no_duplicates()
    }

    /// The entries held, in order of first insertion.
    pub closed spec fn order(self) -> Seq<EntryModel> {
        models(self.items@)
    }

    /// The empty set.
    pub fn new() -> (r: EntrySet)
        ensures
            r.order() == Seq::<EntryModel>::empty(),
            r@ == Set::<EntryModel>::empty(),
    {
        let r = EntrySet { items: Vec::new() };
        assert(r.order() =~= Seq::<EntryModel>::empty());
        assert(r@ =~= Set::<EntryModel>::empty());
        r
    }

    /// The number of entries held.
    pub fn len(&self) -> (r: usize)
        ensures
            r == self.order().len(),
            r == self@.len(),
            self.order().no_duplicates(),
    {
        proof {
            use_type_invariant(self);
            self.order().unique_seq_to_set();
        }
        self.items.len()
    }

    /// True when no entry is held.
    pub fn is_empty(&self) -> (r: bool)
        ensures
            r == (self.order().len() == 0),
    {
        self.items.len() == 0
    }

    /// The entry at position `i` of the insertion order.
    pub fn get(&self, i: usize) -> (r: &EntryInfo)
        requires
            i < self.order().len(),
        ensures
            r@ == self.order()[i as int],
    {
        &self.items[i]
    }

    /// The entries held, in order of first insertion.
    pub fn entries(&self) -> (r: &Vec<EntryInfo>)
        ensures
            models(r@) == self.order(),
            self.order().no_duplicates(),
    {
        proof {
            use_type_invariant(self);
        }
        &self.items
    }

    /// True when `e` is held (same kind, path and size).
    pub fn contains(&self, e: &EntryInfo) -> (r: bool)
        ensures
            r == self.order().contains(e@),
            r == self@.contains(e@),
    {
        let mut i: usize = 0;
        while i < self.items.len()
            invariant
                i <= self.items.len(),
                forall|j: int| 0 <= j < i ==> models(self.items@)[j] != e@,
            decreases self.items.len() - i,
        {
            if self.items[i].same_entry(e) {
                assert(models(self.items@)[i as int] == e@);
                return true;
            }
            i += 1;
        }
        false
    }

    /// The position of the first entry held at the place of `e` (same kind and
    /// path, any size), if there is one.
    pub fn first_at_place(&self, e: &EntryInfo) -> (r: Option<usize>)
        ensures
            match r {
                Some(i) => leads(self.order(), e@, i as int) && i == first_place(
                    self.order(),
                    e@,
                ),
                None => !has_place(self.order(), e@),
            },
    {
        let mut i: usize = 0;
        while i < self.items.len()
            invariant
                i <= self.items.len(),
                forall|j: int| 0 <= j < i ==> !same_place(#[trigger] models(self.items@)[j], e@),
            decreases self.items.len() - i,
        {
            if self.items[i].same_place(e) {
                proof {
                    lemma_first_place(self.order(), e@, i as int);
                }
                return Some(i);
            }
            i += 1;
        }
        None
    }

    /// Inserts `e` unless it is already held; says whether it was new.
    pub fn insert(&mut self, e: EntryInfo) -> (fresh: bool)
        ensures
            fresh == !old(self)@.contains(e@),
            final(self).order() == with_item(old(self).order(), e@),
            final(self)@ == old(self)@.insert(e@),
    {
        proof {
            use_type_invariant(&*self);
            lemma_with_item(self.order(), e@);
        }
        if self.contains(&e) {
            false
        } else {
            let ghost before = models(self.items@);
            let ghost added = e@;
            let mut items: Vec<EntryInfo> = Vec::new();
            assert(models(items@) =~= Seq::<EntryModel>::empty());
            std::mem::swap(&mut self.items, &mut items);
            items.push(e);
            assert(models(items@) =~= before.push(added));
            self.items = items;
            true
        }
    }

    /// Inserts every entry of `batch`, front to back.
    pub fn insert_all(&mut self, batch: Vec<EntryInfo>)
        ensures
            final(self).order() == absorb(old(self).order(), models(batch@)),
            final(self)@ == old(self)@.union(models(batch@).to_set()),
    {
        let ghost start = self.order();
        let ghost all = models(batch@);
        proof {
            use_type_invariant(&*self);
            lemma_absorb(start, all);
        }
        for e in it: batch.into_iter()
            invariant
                models(it.seq()) == all,
                self.order() == absorb(start, all.take(it.index() as int)),
        {
            proof {
                all.lemma_take_succ_push(it.index() as int);
                lemma_absorb_push(start, all.take(it.index() as int), all[it.index() as int]);
            }
            self.insert(e);
        }
        assert(all.take(all.len() as int) =~= all);
    }

    /// The set of the entries of `items`; of entries that occur more than
    /// once, the first occurrence is kept.
    pub fn from_vec(items: Vec<EntryInfo>) -> (r: EntrySet)
        ensures
            r.order() == absorb(Seq::<EntryModel>::empty(), models(items@)),
            r@ == models(items@).to_set(),
    {
        let mut r = EntrySet::new();
        r.insert_all(items);
        proof {
            lemma_absorb_from_empty(models(items@));
        }
        r
    }

    /// True when every entry of `self` is held by `other`.
    pub fn subset_of(&self, other: &EntrySet) -> (r: bool)
        ensures
            r == self@.subset_of(other@),
    {
        let mut i: usize = 0;
        while i < self.items.len()
            invariant
                i <= self.items.len(),
                forall|j: int| 0 <= j < i ==> other@.contains(#[trigger] self.order()[j]),
            decreases self.items.len() - i,
        {
            if !other.contains(&self.items[i]) {
                assert(self@.contains(self.order()[i as int]));
                return false;
            }
            i += 1;
        }
        assert forall|a: EntryModel| self@.contains(a) implies other@.contains(a) by {
            let j = choose|j: int| 0 <= j < self.order().len() && self.order()[j] == a;
            assert(other@.contains(self.order()[j]));
        }
        true
    }

    /// True when both sets hold the same entries.
    pub fn same_set(&self, other: &EntrySet) -> (r: bool)
        ensures
            r == (self@ == other@),
    {
        let r = self.subset_of(other) && other.subset_of(self);
        proof {
            if r {
                assert(self@ =~= other@);
            }
        }
        r
    }
}

impl PartialEq for EntrySet {
    /// Equality of sets: the order of insertion is not looked at.
    fn eq(&self, other: &EntrySet) -> (r: bool) {
        self.same_set(other)
    }
}

impl vstd::std_specs::cmp::PartialEqSpecImpl for EntrySet {
    open spec fn obeys_eq_spec() -> bool {
        true
    }

    open spec fn eq_spec(&self, other: &EntrySet) -> bool {
        self@ == other@
    }
}

impl Clone for EntrySet {
    fn clone(&self) -> (r: Self)
        ensures
            r.order() == self.order(),
            r@ == self@,
    {
        proof {
            use_type_invariant(self);
        }
        let mut items: Vec<EntryInfo> = Vec::new();
        let mut i: usize = 0;
        while i < self.items.len()
            invariant
                i <= self.items.len(),
                models(items@) == models(self.items@).take(i as int),
            decreases self.items.len() - i,
        {
            let ghost before = models(items@);
            items.push(self.items[i].clone());
            proof {
                models(self.items@).lemma_take_succ_push(i as int);
                assert(models(items@) =~= before.push(self.items[i as int]@));
            }
            i += 1;
        }
        assert(models(self.items@).take(self.items.len() as int) =~= models(self.items@));
        EntrySet { items }
    }
}

} // verus!
