//! The builder that gathers a definition's argument sources.
use vstd::prelude::*;

use crate::slot_table::items_viewed;

verus! {

/// The named sources a definition's arguments come from, in order.
pub struct ArgumentBuilder {
    /// The gathered source names.
    pub arg_sources: Vec<String>,
}

impl ArgumentBuilder {
    /// A builder with no sources.
    pub fn new() -> (r: ArgumentBuilder)
        ensures
            r.arg_sources@.len() == 0,
    {
        ArgumentBuilder { arg_sources: Vec::new() }
    }

    /// Replaces the gathered sources with the given ones, in order.
    pub fn set_arg_sources(&mut self, arg_sources: &Vec<String>)
        ensures
            items_viewed(final(self).arg_sources@) == items_viewed(arg_sources@),
    {
        self.arg_sources.clear();
        let mut i: usize = 0;
        while i < arg_sources.len()
            invariant
                i <= arg_sources@.len(),
                items_viewed(self.arg_sources@) == items_viewed(arg_sources@).subrange(
                    0,
                    i as int,
                ),
            decreases arg_sources@.len() - i,
        {
            let ghost before = self.arg_sources@;
            let cloned = arg_sources[i].clone();
            self.arg_sources.push(cloned);
            proof {
                crate::slot_table::lemma_items_viewed_push(before, cloned);
                assert(items_viewed(self.arg_sources@) =~= items_viewed(arg_sources@).subrange(
                    0,
                    i + 1,
                ));
            }
            i = i + 1;
        }
        proof {
            assert(items_viewed(arg_sources@).subrange(
                0,
                arg_sources@.len() as int,
            ) =~= items_viewed(arg_sources@));
        }
    }

    /// Replaces the gathered sources with the single given one.
    pub fn set_arg_source(&mut self, arg_source: &str)
        ensures
            items_viewed(final(self).arg_sources@) == seq![arg_source@],
    {
        self.arg_sources.clear();
        let ghost before = self.arg_sources@;
        let owned = arg_source.to_owned();
        self.arg_sources.push(owned);
        proof {
            crate::slot_table::lemma_items_viewed_push(before, owned);
            assert(items_viewed(self.arg_sources@) =~= seq![arg_source@]);
        }
    }

    /// Appends one source to the gathered ones.
    pub fn push_arg_source(&mut self, arg_source: &str)
        ensures
            items_viewed(final(self).arg_sources@) == items_viewed(old(self).arg_sources@).push(
                arg_source@,
            ),
    {
        let ghost before = self.arg_sources@;
        let owned = arg_source.to_owned();
        self.arg_sources.push(owned);
        proof {
            crate::slot_table::lemma_items_viewed_push(before, owned);
        }
    }
}

} // verus!
