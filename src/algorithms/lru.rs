//! Least-recently-used replacement, by a logical clock that stamps each slot
//! when its page is requested.
use crate::table::{first_min_index, index_of, lemma_first_min_index, lemma_index_of, lemma_index_of_at};
use vstd::prelude::*;

verus! {

/// The abstract state of an LRU page table: the page of each slot, `None`
/// where no page has been placed yet; the time each slot was last
/// requested, 0 for an empty slot; and the clock, the number of requests
/// handled so far.
pub ghost struct LruState {
    pub pages: Seq<Option<u64>>,
    pub times: Seq<u64>,
    pub clock: u64,
}

impl LruState {
    /// A table of `size` empty slots, stamped 0, before any request.
    pub open spec fn empty(size: nat) -> LruState {
        LruState {
            pages: Seq::new(size, |i: int| None),
            times: Seq::new(size, |i: int| 0u64),
            clock: 0,
        }
    }

    /// Some slot holds `page`.
    pub open spec fn is_resident(self, page: u64) -> bool {
        self.pages.contains(Some(page))
    }

    /// A request for `page` faults exactly when no slot holds it.
    pub open spec fn faults(self, page: u64) -> bool {
        !self.is_resident(page)
    }

    /// The slot that a fault overwrites: the first one with the smallest
    /// time, so empty slots fill in order before any page is evicted.
    pub open spec fn victim(self) -> int {
        first_min_index(self.times)
    }

    /// The state after a request for `page`: the clock ticks; on a hit the
    /// slot holding `page` is stamped with the new time, on a fault the
    /// victim slot gets `page` and the new time.
    pub open spec fn after(self, page: u64) -> LruState {
        let now = (self.clock + 1) as u64;
        if self.is_resident(page) {
            LruState {
                pages: self.pages,
                times: self.times.update(index_of(self.pages, Some(page)), now),
                clock: now,
            }
        } else {
            LruState {
                pages: self.pages.update(self.victim(), Some(page)),
                times: self.times.update(self.victim(), now),
                clock: now,
            }
        }
    }
}

/// A slot of an LRU page table.
#[derive(Debug, Clone, Copy)]
pub struct LruPage {
    /// Page number, `None` for an empty slot.
    number: Option<u64>,
    /// Clock value of the last request for the page.
    time: u64,
}

impl View for LruPage {
    type V = (Option<u64>, u64);

    closed spec fn view(&self) -> (Option<u64>, u64) {
        (self.number, self.time)
    }
}

impl LruPage {
    /// An empty slot, stamped 0.
    pub fn new() -> (r: LruPage)
        ensures
            r@ == (None::<u64>, 0u64),
    {
        LruPage { number: None, time: 0 }
    }
}

/// The smallest time in an LRU table and the first slot stamped with it.
#[derive(Debug, Clone, Copy)]
pub struct PageMinMax {
    /// Smallest time seen.
    min: u64,
    /// First slot with that time.
    min_index: usize,
}

impl PageMinMax {
    /// The start of a scan: no time seen yet.
    pub fn new() -> (r: PageMinMax)
        ensures
            r.min() == u64::MAX,
            r.min_index() == 0,
    {
        PageMinMax { min: u64::MAX, min_index: 0 }
    }

    /// Smallest time seen.
    pub closed spec fn min(&self) -> u64 {
        self.min
    }

    /// First slot with the smallest time.
    pub closed spec fn min_index(&self) -> int {
        self.min_index as int
    }
}

/// An LRU page table of a fixed number of slots.
#[derive(Debug)]
pub struct Lru {
    /// The slots.
    table: Vec<LruPage>,
    /// Number of slots.
    size: usize,
    /// Number of requests handled.
    time: u64,
}

impl View for Lru {
    type V = LruState;

    closed spec fn view(&self) -> LruState {
        LruState {
            pages: Seq::new(self.table@.len(), |i: int| self.table@[i].number),
            times: Seq::new(self.table@.len(), |i: int| self.table@[i].time),
            clock: self.time,
        }
    }
}

impl Lru {
    /// The table holds `size` slots, at least one.
    pub closed spec fn wf(&self) -> bool {
        &&& self.size >= 1
        &&& self.table@.len() == self.size
    }

    /// Number of slots, fixed at construction.
    pub closed spec fn capacity(&self) -> nat {
        self.size as nat
    }

    /// A table of `size` empty slots.
    pub fn new(size: usize) -> (r: Lru)
        requires
            size >= 1,
        ensures
            r.wf(),
            r.capacity() == size,
            r@ == LruState::empty(size as nat),
    {
        let r = Lru { table: vec![LruPage::new(); size], size: size, time: 0 };
        assert(r@.pages =~= LruState::empty(size as nat).pages);
        assert(r@.times =~= LruState::empty(size as nat).times);
        r
    }

    /// Scans the table for its smallest time and the first slot holding it.
    fn min_max(&self) -> (r: PageMinMax)
        requires
            self.wf(),
        ensures
            r.min_index() == first_min_index(self@.times),
            r.min() == self@.times[r.min_index()],
    {
        let ghost times = self@.times;
        let mut acc = PageMinMax::new();
        let mut i: usize = 0;
        while i < self.size
            invariant
                self.wf(),
                times == self@.times,
                i <= self.size,
                i == 0 ==> acc.min == u64::MAX && acc.min_index == 0,
                i > 0 ==> acc.min_index < i && acc.min == times[acc.min_index as int]
                    && acc.min_index == first_min_index(times.subrange(0, i as int)),
            decreases self.size - i,
        {
            let t = self.table[i].time;
            if i > 0 {
                assert(times.subrange(0, i as int + 1).drop_last() =~= times.subrange(0, i as int));
            }
            if t < acc.min {
                acc.min = t;
                acc.min_index = i;
            }
            i += 1;
        }
        assert(times.subrange(0, self.size as int) =~= times);
        acc
    }

    /// Index of the first slot holding `page`, or `size` when none does.
    fn find_page(&self, page: u64) -> (r: usize)
        requires
            self.wf(),
        ensures
            r <= self.size,
            r < self.size <==> self@.is_resident(page),
            r < self.size ==> r == index_of(self@.pages, Some(page)),
    {
        let ghost pages = self@.pages;
        let mut i: usize = 0;
        while i < self.size
            invariant
                self.wf(),
                pages == self@.pages,
                i <= self.size,
                forall|j: int| 0 <= j < i ==> pages[j] != Some(page),
            decreases self.size - i,
        {
            if self.table[i].number == Some(page) {
                proof {
                    lemma_index_of_at(pages, Some(page), i as int);
                    lemma_index_of(pages, Some(page));
                }
                return i;
            }
            i += 1;
        }
        proof {
            lemma_index_of(pages, Some(page));
            assert forall|j: int| 0 <= j < pages.len() implies pages[j] != Some(page) by {}
        }
        self.size
    }

    /// Handles a request for `page`; returns true when it faults.
    pub fn handle_page_request(&mut self, page: u64) -> (fault: bool)
        requires
            old(self).wf(),
            old(self)@.clock < u64::MAX,
        ensures
            final(self).wf(),
            final(self).capacity() == old(self).capacity(),
            fault == old(self)@.faults(page),
            final(self)@ == old(self)@.after(page),
    {
        let ghost before = self@;
        let min_max = self.min_max();
        let index = self.find_page(page);
        self.time = self.time + 1;
        let now = self.time;
        if index < self.size {
            let mut entry = self.table[index];
            entry.time = now;
            self.table.set(index, entry);
            assert(self@.pages =~= before.after(page).pages);
            assert(self@.times =~= before.after(page).times);
            false
        } else {
            proof {
                lemma_first_min_index(before.times);
            }
            self.table.set(min_max.min_index, LruPage { number: Some(page), time: now });
            assert(self@.pages =~= before.after(page).pages);
            assert(self@.times =~= before.after(page).times);
            true
        }
    }

    /// The page of each slot, in slot order, `None` for an empty slot.
    pub fn pages(&self) -> (r: Vec<Option<u64>>)
        ensures
            r@ == self@.pages,
    {
        let mut r: Vec<Option<u64>> = Vec::new();
        let mut i: usize = 0;
        while i < self.table.len()
            invariant
                i <= self.table@.len(),
                r@ =~= self@.pages.take(i as int),
            decreases self.table@.len() - i,
        {
            r.push(self.table[i].number);
            i += 1;
        }
        assert(self@.pages.take(self.table@.len() as int) =~= self@.pages);
        r
    }

}

} // verus!
