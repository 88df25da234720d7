//! Second-chance (clock) replacement: a cursor sweeps the slots, sparing once
//! each page whose referenced bit is set.
use crate::table::{index_of, lemma_index_of, lemma_index_of_at};
use vstd::prelude::*;

verus! {

/// The number of set bits.
pub open spec fn count_set(bits: Seq<bool>) -> nat
    decreases bits.len(),
{
    if bits.len() == 0 {
        0
    } else {
        count_set(bits.drop_last()) + if bits.last() {
            1nat
        } else {
            0nat
        }
    }
}

/// The sweep of a fault, from slot `cursor` with at most `fuel` steps: a
/// slot whose bit is clear is the victim, and the sweep stops there; a slot
/// whose bit is set has it cleared, and the sweep goes on with the next slot,
/// wrapping after the last. Gives the bits after the sweep and the victim.
pub open spec fn sweep(bits: Seq<bool>, cursor: int, fuel: nat) -> (Seq<bool>, int)
    decreases fuel,
{
    if fuel == 0 || !bits[cursor] {
        (bits, cursor)
    } else {
        sweep(bits.update(cursor, false), (cursor + 1) % (bits.len() as int), (fuel - 1) as nat)
    }
}

/// Clearing a set bit lowers the count by one.
pub proof fn lemma_count_set_clear(bits: Seq<bool>, i: int)
    requires
        0 <= i < bits.len(),
        bits[i],
    ensures
        count_set(bits.update(i, false)) + 1 == count_set(bits),
    decreases bits.len(),
{
    let u = bits.update(i, false);
    if i == bits.len() - 1 {
        assert(u.drop_last() =~= bits.drop_last());
    } else {
        assert(u.drop_last() =~= bits.drop_last().update(i, false));
        lemma_count_set_clear(bits.drop_last(), i);
    }
}

/// The abstract state of a second-chance page table: the page of each slot,
/// `None` where no page has been placed yet; the referenced bit of each slot;
/// and the slot where the next sweep starts.
pub ghost struct SecondChanceState {
    pub pages: Seq<Option<u64>>,
    pub referenced: Seq<bool>,
    pub cursor: int,
}

impl SecondChanceState {
    /// A table of `size` empty, unreferenced slots, sweeping from slot 0.
    pub open spec fn empty(size: nat) -> SecondChanceState {
        SecondChanceState {
            pages: Seq::new(size, |i: int| None),
            referenced: Seq::new(size, |i: int| false),
            cursor: 0,
        }
    }

    /// Some slot holds `page`.
    pub open spec fn is_resident(self, page: u64) -> bool {
        self.pages.contains(Some(page))
    }

    /// A request for `page` faults exactly when no slot holds it.
    pub open spec fn faults(self, page: u64) -> bool {
        !self.is_resident(page)
    }

    /// The sweep of a fault from the cursor, with one step more than there
    /// are slots: enough to clear every bit and come back.
    pub open spec fn fault_sweep(self) -> (Seq<bool>, int) {
        sweep(self.referenced, self.cursor, self.referenced.len() + 1)
    }

    /// The state after a request for `page`: a hit sets the bit of the slot
    /// holding it; a fault sweeps, writes `page` into the victim with its bit
    /// clear, and leaves the cursor on the slot after the victim.
    pub open spec fn after(self, page: u64) -> SecondChanceState {
        if self.is_resident(page) {
            SecondChanceState {
                pages: self.pages,
                referenced: self.referenced.update(index_of(self.pages, Some(page)), true),
                cursor: self.cursor,
            }
        } else {
            let (bits, victim) = self.fault_sweep();
            SecondChanceState {
                pages: self.pages.update(victim, Some(page)),
                referenced: bits.update(victim, false),
                cursor: (victim + 1) % (self.pages.len() as int),
            }
        }
    }
}

/// A slot of a second-chance page table.
#[derive(Debug, Clone, Copy)]
pub struct SecondChancePage {
    /// Page number, `None` for an empty slot.
    number: Option<u64>,
    /// Referenced bit.
    referenced: bool,
}

impl View for SecondChancePage {
    type V = (Option<u64>, bool);

    closed spec fn view(&self) -> (Option<u64>, bool) {
        (self.number, self.referenced)
    }
}

impl SecondChancePage {
    /// An empty, unreferenced slot.
    pub fn new() -> (r: SecondChancePage)
        ensures
            r@ == (None::<u64>, false),
    {
        SecondChancePage { number: None, referenced: false }
    }
}

/// A second-chance page table of a fixed number of slots.
#[derive(Debug)]
pub struct SecondChance {
    /// The slots.
    table: Vec<SecondChancePage>,
    /// Number of slots.
    size: usize,
    /// Slot where the next sweep starts.
    index: usize,
}

impl View for SecondChance {
    type V = SecondChanceState;

    closed spec fn view(&self) -> SecondChanceState {
        SecondChanceState {
            pages: Seq::new(self.table@.len(), |i: int| self.table@[i].number),
            referenced: Seq::new(self.table@.len(), |i: int| self.table@[i].referenced),
            cursor: self.index as int,
        }
    }
}

impl SecondChance {
    /// The table holds `size` slots, at least one, and the cursor is on one
    /// of them.
    pub closed spec fn wf(&self) -> bool {
        &&& self.size >= 1
        &&& self.table@.len() == self.size
        &&& self.index < self.size
    }

    /// Number of slots, fixed at construction.
    pub closed spec fn capacity(&self) -> nat {
        self.size as nat
    }

    /// A table of `size` empty slots.
    pub fn new(size: usize) -> (r: SecondChance)
        requires
            size >= 1,
        ensures
            r.wf(),
            r.capacity() == size,
            r@ == SecondChanceState::empty(size as nat),
    {
        let r = SecondChance { table: vec![SecondChancePage::new(); size], size: size, index: 0 };
        assert(r@.pages =~= SecondChanceState::empty(size as nat).pages);
        assert(r@.referenced =~= SecondChanceState::empty(size as nat).referenced);
        r
    }

    /// Index of the first slot holding `page`, or `size` when none does.
    fn find_page(&self, page: u64) -> (r: usize)
        requires
            self.wf(),
        ensures
            r <= self.size,
            r < self.size <==> self@.is_resident(page),
            r < self.size ==> r == index_of(self@.pages, Some(page)),
    {
        let ghost pages = self@.pages;
        let mut i: usize = 0;
        while i < self.size
            invariant
                self.wf(),
                pages == self@.pages,
                i <= self.size,
                forall|j: int| 0 <= j < i ==> pages[j] != Some(page),
            decreases self.size - i,
        {
            if self.table[i].number == Some(page) {
                proof {
                    lemma_index_of_at(pages, Some(page), i as int);
                    lemma_index_of(pages, Some(page));
                }
                return i;
            }
            i += 1;
        }
        proof {
            lemma_index_of(pages, Some(page));
            assert forall|j: int| 0 <= j < pages.len() implies pages[j] != Some(page) by {}
        }
        self.size
    }

    /// Handles a request for `page`; returns true when it faults.
    pub fn handle_page_request(&mut self, page: u64) -> (fault: bool)
        requires
            old(self).wf(),
        ensures
            final(self).wf(),
            final(self).capacity() == old(self).capacity(),
            fault == old(self)@.faults(page),
            final(self)@ == old(self)@.after(page),
    {
        let ghost before = self@;
        let index = self.find_page(page);
        if index < self.size {
            let mut entry = self.table[index];
            entry.referenced = true;
            self.table.set(index, entry);
            assert(self@.pages =~= before.after(page).pages);
            assert(self@.referenced =~= before.after(page).referenced);
            return false;
        }
        let ghost mut fuel: nat = (self.size + 1) as nat;
        proof {
            assert(count_set(before.referenced) <= before.referenced.len()) by {
                lemma_count_set_bound(before.referenced);
            }
        }
        loop
            invariant_except_break
                self@.pages == before.pages,
                sweep(self@.referenced, self.index as int, fuel) == before.fault_sweep(),
                fuel > count_set(self@.referenced),
            invariant
                self.wf(),
                !before.is_resident(page),
                before.pages.len() == self.size,
                before.referenced.len() == self.size,
            ensures
                self.wf(),
                self@ == before.after(page),
            decreases count_set(self@.referenced),
        {
            let cursor = self.index;
            let ghost bits = self@.referenced;
            let mut entry = self.table[cursor];
            self.index = (cursor + 1) % self.size;
            if !entry.referenced {
                entry.number = Some(page);
                self.table.set(cursor, entry);
                proof {
                    assert(sweep(bits, cursor as int, fuel) == (bits, cursor as int));
                    assert(self@.pages =~= before.after(page).pages);
                    assert(self@.referenced =~= before.after(page).referenced);
                }
                break;
            }
            proof {
                lemma_count_set_clear(self@.referenced, cursor as int);
            }
            entry.referenced = false;
            self.table.set(cursor, entry);
            proof {
                assert(self@.referenced =~= bits.update(cursor as int, false));
                fuel = (fuel - 1) as nat;
            }
        }
        true
    }

    /// The page of each slot, in slot order, `None` for an empty slot.
    pub fn pages(&self) -> (r: Vec<Option<u64>>)
        ensures
            r@ == self@.pages,
    {
        let mut r: Vec<Option<u64>> = Vec::new();
        let mut i: usize = 0;
        while i < self.table.len()
            invariant
                i <= self.table@.len(),
                r@ =~= self@.pages.take(i as int),
            decreases self.table@.len() - i,
        {
            r.push(self.table[i].number);
            i += 1;
        }
        assert(self@.pages.take(self.table@.len() as int) =~= self@.pages);
        r
    }

}

/// No more bits are set than there are.
pub proof fn lemma_count_set_bound(bits: Seq<bool>)
    ensures
        count_set(bits) <= bits.len(),
    decreases bits.len(),
{
    if bits.len() > 0 {
        lemma_count_set_bound(bits.drop_last());
    }
}

} // verus!
