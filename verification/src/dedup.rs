//! A set of records in which records of equal content collapse into one.

use crate::record::Record;
use vstd::prelude::*;

verus! {

/// The contents of a sequence of records, in order.
pub open spec fn content_of<T: View>(items: Seq<T>) -> Seq<T::V> {
    items.map_values(|t: T| t@)
}

/// A finite set of records, compared by content. It keeps no order.
pub struct ItemSet<T: Record> {
    items: Vec<T>,
}

impl<T: Record> View for ItemSet<T> {
    type V = Set<T::V>;

    closed spec fn view(&self) -> Set<T::V> {
        content_of(self.items@).to_set()
    }
}

impl<T: Record> ItemSet<T> {
    #[verifier::type_invariant]
    spec fn distinct(self) -> bool {
        content_of(self.items@).no_duplicates()
    }

    /// The set of a record is finite, whatever it holds.
    pub proof fn lemma_finite(&self)
        ensures
            self@.finite(),
    {
        vstd::seq_lib::seq_to_set_is_finite(content_of(self.items@));
    }

    /// The empty set.
    pub fn new() -> (s: Self)
        ensures
            s@ == Set::<T::V>::empty(),
    {
        let s = ItemSet { items: Vec::new() };
        assert(content_of(s.items@) =~= Seq::<T::V>::empty());
        assert(s@ =~= Set::<T::V>::empty());
        s
    }

    /// The number of distinct records held.
    pub fn len(&self) -> (n: usize)
        ensures
            self@.finite(),
            n == self@.len(),
    {
        proof {
            use_type_invariant(self);
            self.lemma_finite();
            content_of(self.items@).unique_seq_to_set();
        }
        self.items.len()
    }

    /// Whether the set holds nothing.
    pub fn is_empty(&self) -> (b: bool)
        ensures
            b == (self@ == Set::<T::V>::empty()),
    {
        proof {
            if self.items@.len() > 0 {
                assert(content_of(self.items@)[0] == self.items@[0]@);
                assert(self@.contains(self.items@[0]@));
            } else {
                assert(content_of(self.items@) =~= Seq::<T::V>::empty());
                assert(self@ =~= Set::<T::V>::empty());
            }
        }
        self.items.len() == 0
    }

    /// Whether a record of the same content as `item` is held.
    pub fn contains(&self, item: &T) -> (b: bool)
        ensures
            b == self@.contains(item@),
    {
        let mut i: usize = 0;
        while i < self.items.len()
            invariant
                i <= self.items.len(),
                forall|j: int| 0 <= j < i ==> self.items@[j]@ != item@,
            decreases self.items.len() - i,
        {
            if self.items[i].same(item) {
                proof {
                    assert(content_of(self.items@)[i as int] == item@);
                }
                return true;
            }
            i = i + 1;
        }
        proof {
            let views = content_of(self.items@);
            assert forall|j: int| 0 <= j < views.len() implies views[j] != item@ by {
                assert(views[j] == self.items@[j]@);
            }
        }
        false
    }

    /// Adds `item` unless a record of the same content is already held.
    /// Returns whether the record was new.
    pub fn insert(&mut self, item: T) -> (fresh: bool)
        ensures
            final(self)@ == old(self)@.insert(item@),
            fresh == !old(self)@.contains(item@),
    {
        proof {
            use_type_invariant(&*self);
        }
        if self.contains(&item) {
            assert(self@.insert(item@) =~= self@);
            false
        } else {
            let mut taken = ItemSet { items: Vec::new() };
            core::mem::swap(self, &mut taken);
            let mut items: Vec<T> = taken.items;
            proof {
                let before = content_of(items@);
                let after = content_of(items@.push(item));
                assert(after =~= before.push(item@));
                assert(!before.contains(item@));
                assert(after.no_duplicates());
                before.lemma_push_to_set_commute(item@);
            }
            items.push(item);
            *self = ItemSet { items };
            true
        }
    }

    /// Adds every record of `items`.
    pub fn extend(&mut self, items: Vec<T>)
        ensures
            final(self)@ == old(self)@.union(content_of(items@).to_set()),
    {
        let mut rest: Vec<T> = items;
        let ghost mut taken: Seq<T::V> = Seq::empty();
        while rest.len() > 0
            invariant
                content_of(items@) =~= content_of(rest@) + taken.reverse(),
                self@ == old(self)@.union(taken.to_set()),
            decreases rest.len(),
        {
            let ghost before = rest@;
            match rest.pop() {
                Some(item) => {
                    proof {
                        assert(content_of(before) =~= content_of(rest@).push(item@));
                        assert(taken.push(item@).reverse() =~= seq![item@] + taken.reverse());
                        taken.lemma_push_to_set_commute(item@);
                        taken = taken.push(item@);
                    }
                    self.insert(item);
                    assert(self@ =~= old(self)@.union(taken.to_set()));
                },
                None => {},
            }
        }
        proof {
            assert(content_of(rest@) =~= Seq::<T::V>::empty());
            assert(content_of(items@) =~= taken.reverse());
            assert(taken.reverse().to_set() =~= taken.to_set()) by {
                assert forall|v: T::V| taken.reverse().contains(v) <==> taken.contains(v) by {
                    if taken.contains(v) {
                        let i = choose|i: int| 0 <= i < taken.len() && taken[i] == v;
                        assert(taken.reverse()[taken.len() - 1 - i] == v);
                    }
                    if taken.reverse().contains(v) {
                        let i = choose|i: int|
                            0 <= i < taken.reverse().len() && taken.reverse()[i] == v;
                        assert(taken[taken.len() - 1 - i] == v);
                    }
                }
            }
        }
    }

    /// The records held, each content once, in no particular order.
    pub fn as_vec(&self) -> (v: &Vec<T>)
        ensures
            content_of(v@).no_duplicates(),
            content_of(v@).to_set() == self@,
    {
        proof {
            use_type_invariant(self);
        }
        &self.items
    }

    /// The records held, each content once, in no particular order.
    pub fn into_vec(self) -> (v: Vec<T>)
        ensures
            content_of(v@).no_duplicates(),
            content_of(v@).to_set() == self@,
    {
        proof {
            use_type_invariant(&self);
        }
        self.items
    }
}

} // verus!
