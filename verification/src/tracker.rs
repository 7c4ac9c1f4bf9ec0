//! The indices of the entries that changed since a record was decoded.

use crate::error::LayoutError;
use crate::layout::UTXO_CAPACITY;
use crate::patch::{index_set, lemma_index_set_push};
use vstd::prelude::*;

verus! {

/// Collects the indices of the entries that the next encoding has to write.
/// Marking an index twice does no harm, and the order of marking is not kept.
#[derive(Debug)]
pub struct ModificationTracker {
    indices: Vec<usize>,
}

impl View for ModificationTracker {
    type V = Set<int>;

    /// The set of marked indices.
    closed spec fn view(&self) -> Set<int> {
        index_set(self.indices@)
    }
}

impl Clone for ModificationTracker {
    fn clone(&self) -> (copy: Self)
        ensures
            copy@ == self@,
    {
        proof {
            use_type_invariant(self);
        }
        let indices = self.indices.clone();
        assert(indices@ =~= self.indices@);
        assert(index_set(indices@) == self@);
        ModificationTracker { indices }
    }
}

impl ModificationTracker {
    /// Every marked index is the index of an entry of the table.
    #[verifier::type_invariant]
    pub open spec fn well_formed(&self) -> bool {
        forall|i: int| self@.contains(i) ==> 0 <= i < UTXO_CAPACITY
    }

    /// A tracker with no index marked.
    pub fn new() -> (tracker: ModificationTracker)
        ensures
            tracker@ == Set::<int>::empty(),
    {
        let tracker = ModificationTracker { indices: Vec::new() };
        assert(tracker@ =~= Set::<int>::empty());
        tracker
    }

    /// Marks entry `index` as changed. An index at or above the capacity is
    /// rejected with `OutOfRange` and leaves the tracker as it was.
    pub fn mark(&mut self, index: usize) -> (result: Result<(), LayoutError>)
        ensures
            index >= UTXO_CAPACITY ==> result == Err::<(), LayoutError>(LayoutError::OutOfRange)
                && *final(self) == *old(self),
            index < UTXO_CAPACITY ==> result == Ok::<(), LayoutError>(()) && final(self)@ == old(
                self,
            )@.insert(index as int),
            old(self)@.contains(index as int) ==> final(self)@ == old(self)@,
    {
        proof {
            use_type_invariant(&*self);
        }
        if index >= UTXO_CAPACITY {
            return Err(LayoutError::OutOfRange);
        }
        let mut indices: Vec<usize> = Vec::new();
        std::mem::swap(&mut indices, &mut self.indices);
        let ghost before = indices@;
        indices.push(index);
        proof {
            lemma_index_set_push(before, index);
        }
        assert(index_set(before) == old(self)@);
        assert forall|i: int| index_set(indices@).contains(i) implies 0 <= i < UTXO_CAPACITY by {
            if i != index {
                assert(old(self)@.contains(i));
            }
        }
        self.indices = indices;
        assert(old(self)@.contains(index as int) ==> self@ =~= old(self)@);
        Ok(())
    }

    /// Whether entry `index` is marked.
    pub fn is_marked(&self, index: usize) -> (marked: bool)
        ensures
            marked == self@.contains(index as int),
    {
        let mut j: usize = 0;
        while j < self.indices.len()
            invariant
                j <= self.indices@.len(),
                forall|w: int| 0 <= w < j ==> self.indices@[w] != index,
            decreases self.indices@.len() - j,
        {
            if self.indices[j] == index {
                return true;
            }
            j = j + 1;
        }
        false
    }

    /// Whether no index is marked.
    pub fn is_empty(&self) -> (empty: bool)
        ensures
            empty == (self@ == Set::<int>::empty()),
    {
        let empty = self.indices.len() == 0;
        proof {
            if empty {
                assert(self@ =~= Set::<int>::empty());
            } else {
                assert(self@.contains(self.indices@[0] as int));
            }
        }
        empty
    }

    /// The marked indices, each below `UTXO_CAPACITY`, in no particular order;
    /// an index may occur more than once.
    pub fn indices(&self) -> (indices: &[usize])
        ensures
            index_set(indices@) == self@,
            forall|j: int| 0 <= j < indices@.len() ==> indices@[j] < UTXO_CAPACITY,
    {
        proof {
            use_type_invariant(self);
            assert forall|j: int| 0 <= j < self.indices@.len() implies self.indices@[j]
                < UTXO_CAPACITY by {
                assert(self@.contains(self.indices@[j] as int));
            }
        }
        self.indices.as_slice()
    }
}

} // verus!
