//! The simple append-only ordered container used to gather same-typed
//! registrants.
use vstd::prelude::*;

use crate::slot_table::items_viewed;

verus! {

/// An append-only list of items, kept in insertion order.
pub struct Collection<T> {
    items: Vec<T>,
}

impl<T: View> View for Collection<T> {
    type V = Seq<T::V>;

    closed spec fn view(&self) -> Seq<T::V> {
        items_viewed(self.items@)
    }
}

impl<T: View> Collection<T> {
    /// An empty collection.
    pub fn new() -> (r: Collection<T>)
        ensures
            r@ == Seq::<T::V>::empty(),
    {
        let r = Collection { items: Vec::new() };
        proof {
            assert(r@ =~= Seq::<T::V>::empty());
        }
        r
    }

    /// Appends one item.
    pub fn push(&mut self, item: T)
        ensures
            final(self)@ == old(self)@.push(item@),
    {
        let ghost i0 = self.items@;
        self.items.push(item);
        proof {
            crate::slot_table::lemma_items_viewed_push(i0, item);
        }
    }

    /// The items, in insertion order, for iteration.
    pub fn iter(&self) -> (r: &Vec<T>)
        ensures
            items_viewed(r@) == self@,
    {
        &self.items
    }

    /// How many items were gathered.
    pub fn len(&self) -> (r: usize)
        ensures
            r == self@.len(),
    {
        self.items.len()
    }
}

} // verus!
