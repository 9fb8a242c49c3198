//! Growable tables of reusable slots with stable indices.
//!
//! A slot, once assigned, keeps its index until it is released; releasing the
//! highest occupied slot shrinks the table again, so churn does not grow it
//! without bound.  Both sides of a bridge, and the engine's store of shared
//! instances, are such tables.
use vstd::prelude::*;

verus! {

/// The least index holding `None`, or `s.len()` when every slot is occupied:
/// the index a fresh insertion receives.
pub open spec fn first_free<T>(s: Seq<Option<T>>) -> int
    decreases s.len(),
{
    if s.len() == 0 {
        0
    } else if s[0] is None {
        0
    } else {
        1 + first_free(s.subrange(1, s.len() as int))
    }
}

/// `s` with every trailing empty slot removed.
pub open spec fn trimmed<T>(s: Seq<Option<T>>) -> Seq<Option<T>>
    decreases s.len(),
{
    if s.len() == 0 {
        s
    } else if s.last() is Some {
        s
    } else {
        trimmed(s.drop_last())
    }
}

/// How many slots of `s` are occupied.
pub open spec fn occupied<T>(s: Seq<Option<T>>) -> nat
    decreases s.len(),
{
    if s.len() == 0 {
        0
    } else {
        occupied(s.drop_last()) + (if s.last() is Some {
            1nat
        } else {
            0nat
        })
    }
}

/// `first_free` names the least free index: everything below it is occupied,
/// and it is free itself unless the table is full.
pub proof fn lemma_first_free_is_least<T>(s: Seq<Option<T>>)
    ensures
        0 <= first_free(s) <= s.len(),
        forall|k: int| 0 <= k < first_free(s) ==> s[k] is Some,
        first_free(s) < s.len() ==> s[first_free(s)] is None,
    decreases s.len(),
{
    if s.len() > 0 && s[0] is Some {
        let sub = s.subrange(1, s.len() as int);
        lemma_first_free_is_least(sub);
        assert forall|k: int| 0 <= k < first_free(s) implies s[k] is Some by {
            if k > 0 {
                assert(sub[k - 1] is Some);
            }
        }
    }
}

/// A prefix in which every slot is occupied, followed by a free slot, pins
/// `first_free` down to that slot's index.
pub proof fn lemma_first_free_at<T>(s: Seq<Option<T>>, i: int)
    requires
        0 <= i <= s.len(),
        forall|k: int| 0 <= k < i ==> s[k] is Some,
        i < s.len() ==> s[i] is None,
    ensures
        first_free(s) == i,
    decreases s.len(),
{
    if s.len() > 0 && s[0] is Some {
        lemma_first_free_at(s.subrange(1, s.len() as int), i - 1);
    }
}

/// When every slot from `n` on is empty and slot `n - 1` (if any) is
/// occupied, trimming removes exactly the slots from `n` on.
pub proof fn lemma_trimmed_at<T>(s: Seq<Option<T>>, n: int)
    requires
        0 <= n <= s.len(),
        forall|k: int| n <= k < s.len() ==> s[k] is None,
        n > 0 ==> s[n - 1] is Some,
    ensures
        trimmed(s) == s.subrange(0, n),
    decreases s.len(),
{
    if s.len() == 0 {
        assert(trimmed(s) =~= s.subrange(0, n));
    } else if s.last() is Some {
        assert(n == s.len());
        assert(trimmed(s) =~= s.subrange(0, n));
    } else {
        lemma_trimmed_at(s.drop_last(), n);
        assert(s.drop_last().subrange(0, n) =~= s.subrange(0, n));
    }
}

/// The slots of a table, abstracted to their views.
pub open spec fn viewed<T: View>(s: Seq<Option<T>>) -> Seq<Option<T::V>> {
    Seq::new(
        s.len(),
        |i: int|
            match s[i] {
                Some(x) => Some(x@),
                None => None,
            },
    )
}

/// The items of a vector, abstracted to their views.
pub open spec fn items_viewed<T: View>(v: Seq<T>) -> Seq<T::V> {
    Seq::new(v.len(), |i: int| v[i]@)
}

/// Abstracting items to views distributes over concatenation.
pub proof fn lemma_items_viewed_concat<T: View>(a: Seq<T>, b: Seq<T>)
    ensures
        items_viewed(a + b) == items_viewed(a) + items_viewed(b),
{
    assert forall|m: int| 0 <= m < a.len() + b.len() implies items_viewed(a + b)[m] == (
    items_viewed(a) + items_viewed(b))[m] by {
        if m < a.len() {
            assert((a + b)[m] == a[m]);
        } else {
            assert((a + b)[m] == b[m - a.len()]);
        }
    }
    assert(items_viewed(a + b) =~= items_viewed(a) + items_viewed(b));
}

/// Abstracting items to views distributes over appending one item.
pub proof fn lemma_items_viewed_push<T: View>(a: Seq<T>, x: T)
    ensures
        items_viewed(a.push(x)) == items_viewed(a).push(x@),
{
    assert forall|m: int| 0 <= m < a.len() + 1 implies items_viewed(a.push(x))[m] == items_viewed(
        a,
    ).push(x@)[m] by {
        if m < a.len() {
            assert(a.push(x)[m] == a[m]);
        } else {
            assert(a.push(x)[m] == x);
        }
    }
    assert(items_viewed(a.push(x)) =~= items_viewed(a).push(x@));
}

/// Abstracting slots to views keeps the first free index.
pub proof fn lemma_first_free_viewed<T: View>(s: Seq<Option<T>>)
    ensures
        first_free(viewed(s)) == first_free(s),
    decreases s.len(),
{
    if s.len() == 0 {
        assert(viewed(s).len() == 0);
    } else if s[0] is None {
        assert(viewed(s)[0] is None);
    } else {
        assert(viewed(s)[0] is Some);
        lemma_first_free_viewed(s.subrange(1, s.len() as int));
        assert(viewed(s.subrange(1, s.len() as int)) =~= viewed(s).subrange(
            1,
            viewed(s).len() as int,
        ));
    }
}

/// Abstracting slots to views commutes with trimming trailing empty slots.
pub proof fn lemma_viewed_trimmed<T: View>(s: Seq<Option<T>>)
    ensures
        viewed(trimmed(s)) == trimmed(viewed(s)),
    decreases s.len(),
{
    if s.len() == 0 {
        assert(viewed(trimmed(s)) =~= trimmed(viewed(s)));
    } else if s.last() is Some {
        assert(viewed(s).last() is Some);
        assert(viewed(trimmed(s)) =~= trimmed(viewed(s)));
    } else {
        assert(viewed(s).last() is None);
        lemma_viewed_trimmed(s.drop_last());
        assert(viewed(s.drop_last()) =~= viewed(s).drop_last());
    }
}

/// A table of slots.  `used_size` is the high-water mark: the smallest index
/// past which the table is guaranteed empty.  At rest it always equals the
/// table's length, because releasing the last occupied slot trims the table
/// back down to the mark.
pub struct SlotTable<T> {
    data: Vec<Option<T>>,
    used_size: usize,
}

impl<T> SlotTable<T> {
    /// The slots as a sequence.
    pub closed spec fn slots(&self) -> Seq<Option<T>> {
        self.data@
    }

    /// The current high-water mark.
    pub closed spec fn used(&self) -> nat {
        self.used_size as nat
    }

    /// Between operations the mark equals the length and the last slot, if
    /// any, is occupied.
    pub open spec fn wf(&self) -> bool {
        &&& self.used() == self.slots().len()
        &&& self.slots().len() > 0 ==> self.slots().last() is Some
    }

    /// An empty table.
    pub fn new() -> (r: SlotTable<T>)
        ensures
            r.wf(),
            r.slots() == Seq::<Option<T>>::empty(),
    {
        SlotTable { data: Vec::new(), used_size: 0 }
    }

    /// The number of slots, occupied or not.
    pub fn len(&self) -> (r: usize)
        ensures
            r == self.slots().len(),
    {
        self.data.len()
    }

    /// The high-water mark.
    pub fn used_size(&self) -> (r: usize)
        ensures
            r == self.used(),
    {
        self.used_size
    }

    /// Reads one slot.
    pub fn slot(&self, id: usize) -> (r: &Option<T>)
        requires
            id < self.slots().len(),
        ensures
            *r == self.slots()[id as int],
    {
        &self.data[id]
    }

    /// Exchanges the contents of one slot with `v`.
    pub fn swap_slot(&mut self, id: usize, v: &mut Option<T>)
        requires
            id < old(self).slots().len(),
        ensures
            *final(v) == old(self).slots()[id as int],
            final(self).slots() == old(self).slots().update(id as int, *old(v)),
            final(self).used() == old(self).used(),
    {
        core::mem::swap(v, &mut self.data[id]);
    }

    /// How many slots are occupied.
    pub fn occupied_count(&self) -> (r: usize)
        ensures
            r == occupied(self.slots()),
    {
        let mut n: usize = 0;
        let mut i: usize = 0;
        while i < self.data.len()
            invariant
                i <= self.data@.len(),
                n == occupied(self.data@.subrange(0, i as int)),
                n <= i,
            decreases self.data@.len() - i,
        {
            proof {
                assert(self.data@.subrange(0, i + 1).drop_last() =~= self.data@.subrange(
                    0,
                    i as int,
                ));
            }
            if self.data[i].is_some() {
                n = n + 1;
            }
            i = i + 1;
        }
        proof {
            assert(self.data@.subrange(0, i as int) =~= self.data@);
        }
        n
    }

    /// Stores `value` in the first empty slot, reusing a released slot below
    /// the high-water mark when one exists and appending otherwise.  The
    /// returned index is the instance's stable identifier until the slot is
    /// released.
    pub fn insert(&mut self, value: T) -> (id: usize)
        requires
            old(self).wf(),
        ensures
            final(self).wf(),
            id == first_free(old(self).slots()),
            final(self).slots() == (if id < old(self).slots().len() {
                old(self).slots().update(id as int, Some(value))
            } else {
                old(self).slots().push(Some(value))
            }),
    {
        let ghost s0 = self.data@;
        let mut i: usize = 0;
        let mut free: Option<usize> = None;
        while i < self.data.len()
            invariant
                self == old(self),
                i <= s0.len(),
                s0 == self.data@,
                free matches Some(f) ==> f < s0.len() && s0[f as int] is None && first_free(s0)
                    == f,
                free is None ==> forall|k: int| 0 <= k < i ==> s0[k] is Some,
            decreases s0.len() - i,
        {
            if free.is_none() && self.data[i].is_none() {
                proof {
                    lemma_first_free_at(s0, i as int);
                }
                free = Some(i);
            }
            i = i + 1;
        }
        match free {
            Some(f) => {
                self.data[f] = Some(value);
                if f + 1 > self.used_size {
                    self.used_size = f + 1;
                }
                assert(self.data@.last() == (if f + 1 == self.data@.len() {
                    Some(value)
                } else {
                    s0.last()
                }));
                f
            },
            None => {
                proof {
                    lemma_first_free_at(s0, s0.len() as int);
                }
                let index = self.data.len();
                self.data.push(Some(value));
                self.used_size = self.data.len();
                index
            },
        }
    }

    /// Empties the slot `id` and returns what it held.  When the released
    /// slot was the last one before the high-water mark, the mark shrinks
    /// past every trailing empty slot and the table is trimmed to it; ids of
    /// earlier occupied slots are preserved either way.
    pub fn release(&mut self, id: usize) -> (removed: Option<T>)
        requires
            old(self).wf(),
            id < old(self).slots().len(),
        ensures
            final(self).wf(),
            removed == old(self).slots()[id as int],
            final(self).slots() == trimmed(old(self).slots().update(id as int, None)),
    {
        let ghost s1 = old(self).data@.update(id as int, None);
        let mut removed: Option<T> = None;
        core::mem::swap(&mut removed, &mut self.data[id]);
        assert(self.data@ =~= s1);
        if id + 1 == self.used_size {
            loop
                invariant_except_break
                    self.used_size > 0 ==> s1[self.used_size - 1] is None,
                invariant
                    self.data@ == s1,
                    self.used_size <= s1.len(),
                    forall|k: int| self.used_size <= k < s1.len() ==> s1[k] is None,
                ensures
                    self.data@ == s1,
                    self.used_size <= s1.len(),
                    forall|k: int| self.used_size <= k < s1.len() ==> s1[k] is None,
                    self.used_size > 0 ==> s1[self.used_size - 1] is Some,
                decreases self.used_size,
            {
                if self.used_size == 0 {
                    break ;
                }
                self.used_size = self.used_size - 1;
                if self.used_size == 0 || self.data[self.used_size - 1].is_some() {
                    break ;
                }
            }
            proof {
                lemma_trimmed_at(s1, self.used_size as int);
            }
            self.data.truncate(self.used_size);
            assert(self.data@ =~= s1.subrange(0, self.used_size as int));
        } else {
            assert(self.data@.last() is Some);
            assert(trimmed(s1) == s1);
        }
        removed
    }
}

} // verus!
