//! First-in, first-out replacement: a circular write cursor over the slots.
use vstd::prelude::*;

verus! {

/// The abstract state of a FIFO page table: its slots, `None` where no page
/// has been placed yet, and the slot that the next fault writes.
pub ghost struct FifoState {
    pub slots: Seq<Option<u64>>,
    pub cursor: int,
}

impl FifoState {
    /// A table of `size` empty slots, writing slot 0 first.
    pub open spec fn empty(size: nat) -> FifoState {
        FifoState { slots: Seq::new(size, |i: int| None), cursor: 0 }
    }

    /// Some slot holds `page`.
    pub open spec fn is_resident(self, page: u64) -> bool {
        self.slots.contains(Some(page))
    }

    /// A request for `page` faults exactly when no slot holds it.
    pub open spec fn faults(self, page: u64) -> bool {
        !self.is_resident(page)
    }

    /// The state after a request for `page`: a hit changes nothing; a fault
    /// overwrites the slot under the cursor, whatever it held, and moves the
    /// cursor one slot on, wrapping after the last.
    pub open spec fn after(self, page: u64) -> FifoState {
        if self.is_resident(page) {
            self
        } else {
            FifoState {
                slots: self.slots.update(self.cursor, Some(page)),
                cursor: (self.cursor + 1) % (self.slots.len() as int),
            }
        }
    }
}

/// A FIFO page table of a fixed number of slots.
#[derive(Debug)]
pub struct Fifo {
    /// The slots, `None` until first written.
    table: Vec<Option<u64>>,
    /// Number of slots.
    size: usize,
    /// Slot that the next fault writes.
    index: usize,
}

impl View for Fifo {
    type V = FifoState;

    closed spec fn view(&self) -> FifoState {
        FifoState { slots: self.table@, cursor: self.index as int }
    }
}

impl Fifo {
    /// The table holds `size` slots, at least one, and the cursor is on one
    /// of them.
    pub closed spec fn wf(&self) -> bool {
        &&& self.size >= 1
        &&& self.table@.len() == self.size
        &&& self.index < self.size
    }

    /// Number of slots, fixed at construction.
    pub closed spec fn capacity(&self) -> nat {
        self.size as nat
    }

    /// A table of `size` empty slots.
    pub fn new(size: usize) -> (r: Fifo)
        requires
            size >= 1,
        ensures
            r.wf(),
            r.capacity() == size,
            r@ == FifoState::empty(size as nat),
    {
        let r = Fifo { table: vec![None; size], size: size, index: 0 };
        assert(r.table@ =~= FifoState::empty(size as nat).slots);
        r
    }

    /// Handles a request for `page`; returns true when it faults.
    pub fn handle_page_request(&mut self, page: u64) -> (fault: bool)
        requires
            old(self).wf(),
        ensures
            final(self).wf(),
            final(self).capacity() == old(self).capacity(),
            fault == old(self)@.faults(page),
            final(self)@ == old(self)@.after(page),
    {
        let mut i: usize = 0;
        while i < self.table.len()
            invariant
                self.wf(),
                self@ == old(self)@,
                i <= self.table@.len(),
                forall|j: int| 0 <= j < i ==> self.table@[j] != Some(page),
            decreases self.table@.len() - i,
        {
            if self.table[i] == Some(page) {
                assert(self@.slots[i as int] == Some(page));
                return false;
            }
            i += 1;
        }
        assert(!self@.slots.contains(Some(page)));
        let cursor = self.index;
        self.table.set(cursor, Some(page));
        self.index = (cursor + 1) % self.size;
        true
    }

    /// The page of each slot, in slot order, `None` for an empty slot.
    pub fn pages(&self) -> (r: Vec<Option<u64>>)
        ensures
            r@ == self@.slots,
    {
        self.table.clone()
    }

}

} // verus!
