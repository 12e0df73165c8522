//! Measuring items on demand: how a size function relates to the sizes of a
//! list, and a memo that asks it at most once for each item.

use std::collections::HashMap;
use vstd::prelude::*;

verus! {

/// A size function can measure a list of `item_count` items when it may be
/// called for each of them.
pub open spec fn measurable<F: Fn(usize) -> u16>(size_of: F, item_count: usize) -> bool {
    forall|i: usize| i < item_count ==> call_requires(size_of, (i,))
}

/// `sizes` describes the size function of a list: whatever `size_of` returns
/// for an item of the list is that item's entry in `sizes`.
pub open spec fn describes<F: Fn(usize) -> u16>(sizes: Seq<u16>, size_of: F) -> bool {
    forall|i: usize, size: u16|
        i < sizes.len() && #[trigger] call_ensures(size_of, (i,), size) ==> size == sizes[i as int]
}

/// The sizes that one layout pass has asked for so far.
pub(crate) struct SizeMemo {
    known: HashMap<usize, u16>,
}

impl SizeMemo {
    /// The sizes in the memo, by item.
    pub(crate) closed spec fn entries(&self) -> Map<usize, u16> {
        self.known@
    }

    /// Every size in the memo belongs to an item of the list and is one that
    /// `size_of` has returned for it.
    pub(crate) open spec fn holds<F: Fn(usize) -> u16>(&self, size_of: F, item_count: usize) -> bool {
        forall|i: usize| #[trigger]
            self.entries().contains_key(i) ==> i < item_count && call_ensures(
                size_of,
                (i,),
                self.entries()[i],
            )
    }

    /// A memo without sizes.
    pub(crate) fn new() -> (memo: SizeMemo)
        ensures
            memo.entries() == Map::<usize, u16>::empty(),
    {
        SizeMemo { known: HashMap::new() }
    }

    /// The size of item `i`. The item is measured if the memo does not hold
    /// its size yet, and never again after that.
    pub(crate) fn size<F: Fn(usize) -> u16>(&mut self, size_of: &F, item_count: usize, i: usize) -> (size:
        u16)
        requires
            measurable(*size_of, item_count),
            i < item_count,
            old(self).holds(*size_of, item_count),
        ensures
            call_ensures(*size_of, (i,), size),
            old(self).entries().contains_key(i) ==> size == old(self).entries()[i],
            final(self).holds(*size_of, item_count),
            final(self).entries() == old(self).entries().insert(i, size),
    {
        broadcast use vstd::std_specs::hash::group_hash_axioms;

        let hit = self.known.get(&i);
        match hit {
            Some(known) => {
                let size: u16 = *known;
                assert(self.entries() =~= old(self).entries().insert(i, size));
                size
            },
            None => {
                let size: u16 = size_of(i);
                self.known.insert(i, size);
                size
            },
        }
    }
}

} // verus!
