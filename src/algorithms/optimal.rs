//! Belady's optimal replacement: on a full table, evict the page whose next
//! request lies furthest ahead in the trace, or that is never requested again.
use crate::error::Error;
use crate::table::{first_max_index, index_of, lemma_first_max_index, lemma_index_of, lemma_index_of_at};
use std::sync::Arc;
use vstd::prelude::*;

verus! {

/// How far ahead of the current request `page` is requested next: its index
/// in `future`, or `future.len()` when it is never requested again. An empty
/// slot counts as never requested.
pub open spec fn next_use(future: Seq<u64>, slot: Option<u64>) -> nat {
    match slot {
        Some(page) => if index_of(future, page) >= 0 {
            index_of(future, page) as nat
        } else {
            future.len()
        },
        None => future.len(),
    }
}

/// The abstract state of an optimal page table: its slots, the whole trace,
/// and the position in the trace of the request that comes next.
pub ghost struct OptimalState {
    pub slots: Seq<Option<u64>>,
    pub trace: Seq<u64>,
    pub position: nat,
}

impl OptimalState {
    /// A table of `size` empty slots at the start of `trace`.
    pub open spec fn empty(size: nat, trace: Seq<u64>) -> OptimalState {
        OptimalState { slots: Seq::new(size, |i: int| None), trace, position: 0 }
    }

    /// Some slot holds `page`.
    pub open spec fn is_resident(self, page: u64) -> bool {
        self.slots.contains(Some(page))
    }

    /// A request for `page` faults exactly when no slot holds it.
    pub open spec fn faults(self, page: u64) -> bool {
        !self.is_resident(page)
    }

    /// The requests of the trace after the current one.
    pub open spec fn future(self) -> Seq<u64> {
        if self.position < self.trace.len() {
            self.trace.subrange(self.position + 1 as int, self.trace.len() as int)
        } else {
            Seq::empty()
        }
    }

    /// For each slot, how far ahead its page is requested next.
    pub open spec fn distances(self) -> Seq<nat> {
        Seq::new(self.slots.len(), |i: int| next_use(self.future(), self.slots[i]))
    }

    /// The slot that a fault writes: the first empty one while there is one;
    /// then the first slot whose page is never requested again, or else the
    /// first whose next request is furthest ahead.
    pub open spec fn victim(self) -> int {
        if index_of(self.slots, None) >= 0 {
            index_of(self.slots, None)
        } else {
            first_max_index(self.distances())
        }
    }

    /// The state after a request for `page`: the position moves on by one
    /// (it stops at the end of the trace); on a fault the victim slot now
    /// holds `page`.
    pub open spec fn after(self, page: u64) -> OptimalState {
        OptimalState {
            slots: if self.is_resident(page) {
                self.slots
            } else {
                self.slots.update(self.victim(), Some(page))
            },
            trace: self.trace,
            position: if self.position < self.trace.len() {
                self.position + 1
            } else {
                self.position
            },
        }
    }
}

/// An optimal page table, which reads the requests still to come from a
/// shared copy of the whole trace.
#[derive(Debug)]
pub struct Optimal {
    /// The slots, `None` until first written.
    table: Vec<Option<u64>>,
    /// The whole trace, in order.
    page_requests: Arc<Vec<u64>>,
    /// Number of slots.
    size: usize,
    /// Position in the trace of the next request.
    index: usize,
}

impl View for Optimal {
    type V = OptimalState;

    closed spec fn view(&self) -> OptimalState {
        OptimalState {
            slots: self.table@,
            trace: self.page_requests@,
            position: self.index as nat,
        }
    }
}

impl Optimal {
    /// The table holds `size` slots, at least one, and the position is
    /// within the trace or just past it.
    pub closed spec fn wf(&self) -> bool {
        &&& self.size >= 1
        &&& self.table@.len() == self.size
        &&& self.index <= self.page_requests@.len()
    }

    /// Number of slots, fixed at construction.
    pub closed spec fn capacity(&self) -> nat {
        self.size as nat
    }

    /// A table of `size` empty slots at the start of the trace; fails
    /// without a trace.
    pub fn new(size: usize, page_requests: Option<Arc<Vec<u64>>>) -> (r: Result<Optimal, Error>)
        requires
            size >= 1,
        ensures
            page_requests is None <==> r == Err::<Optimal, Error>(Error::MissingTrace),
            page_requests is Some <==> r is Ok,
            r is Ok ==> r->Ok_0.wf() && r->Ok_0.capacity() == size
                && r->Ok_0@ == OptimalState::empty(size as nat, page_requests->0@),
    {
        match page_requests {
            None => Err(Error::MissingTrace),
            Some(page_requests) => {
                let r = Optimal { table: vec![None; size], page_requests, size, index: 0 };
                assert(r.table@ =~= OptimalState::empty(size as nat, r.page_requests@).slots);
                Ok(r)
            },
        }
    }

    /// Index of the first slot holding `slot`, or `size` when none does.
    fn find_slot(&self, slot: Option<u64>) -> (r: usize)
        requires
            self.wf(),
        ensures
            r <= self.size,
            r < self.size <==> index_of(self@.slots, slot) >= 0,
            r < self.size ==> r == index_of(self@.slots, slot),
    {
        let mut i: usize = 0;
        while i < self.size
            invariant
                self.wf(),
                i <= self.size,
                forall|j: int| 0 <= j < i ==> self.table@[j] != slot,
            decreases self.size - i,
        {
            if self.table[i] == slot {
                proof {
                    lemma_index_of_at(self@.slots, slot, i as int);
                }
                return i;
            }
            i += 1;
        }
        proof {
            lemma_index_of(self@.slots, slot);
        }
        self.size
    }

    /// How far ahead of the current request the page in `slot` is next
    /// requested.
    fn next_use_of(&self, slot: Option<u64>) -> (r: usize)
        requires
            self.wf(),
        ensures
            r == next_use(self@.future(), slot),
    {
        let ghost future = self@.future();
        let n = self.page_requests.len();
        let start = if self.index < n {
            self.index + 1
        } else {
            n
        };
        assert(future =~= self@.trace.subrange(start as int, n as int));
        match slot {
            None => n - start,
            Some(page) => {
                let mut k: usize = start;
                while k < n
                    invariant
                        self.wf(),
                        n == self.page_requests@.len(),
                        start <= k <= n,
                        future == self@.trace.subrange(start as int, n as int),
                        future == self@.future(),
                        slot == Some(page),
                        forall|j: int| 0 <= j < k - start ==> future[j] != page,
                    decreases n - k,
                {
                    if self.page_requests[k] == page {
                        proof {
                            lemma_index_of_at(future, page, k - start);
                        }
                        return k - start;
                    }
                    k += 1;
                }
                proof {
                    lemma_index_of(future, page);
                }
                n - start
            },
        }
    }

    /// The slot to overwrite on a fault when no slot is empty.
    fn furthest_slot(&self) -> (r: usize)
        requires
            self.wf(),
        ensures
            r == first_max_index(self@.distances()),
    {
        let ghost d = self@.distances();
        let mut best: usize = 0;
        let mut best_distance = self.next_use_of(self.table[0]);
        let mut i: usize = 1;
        assert(d.subrange(0, 1).len() == 1);
        while i < self.size
            invariant
                self.wf(),
                d == self@.distances(),
                1 <= i <= self.size,
                best < i,
                best_distance == d[best as int],
                best == first_max_index(d.subrange(0, i as int)),
            decreases self.size - i,
        {
            let distance = self.next_use_of(self.table[i]);
            assert(d.subrange(0, i as int + 1).drop_last() =~= d.subrange(0, i as int));
            if distance > best_distance {
                best = i;
                best_distance = distance;
            }
            i += 1;
        }
        assert(d.subrange(0, self.size as int) =~= d);
        best
    }

    /// Handles a request for `page`; returns true when it faults.
    pub fn handle_page_request(&mut self, page: u64) -> (fault: bool)
        requires
            old(self).wf(),
        ensures
            final(self).wf(),
            final(self).capacity() == old(self).capacity(),
            fault == old(self)@.faults(page),
            final(self)@ == old(self)@.after(page),
    {
        let resident = self.find_slot(Some(page));
        if resident < self.size {
            proof {
                lemma_index_of(self@.slots, Some(page));
            }
            if self.index < self.page_requests.len() {
                self.index = self.index + 1;
            }
            return false;
        }
        proof {
            lemma_index_of(self@.slots, Some(page));
        }
        let free = self.find_slot(None);
        let victim = if free < self.size {
            free
        } else {
            proof {
                lemma_first_max_index(self@.distances());
            }
            self.furthest_slot()
        };
        self.table.set(victim, Some(page));
        if self.index < self.page_requests.len() {
            self.index = self.index + 1;
        }
        true
    }

    /// The page of each slot, in slot order, `None` for an empty slot.
    pub fn pages(&self) -> (r: Vec<Option<u64>>)
        ensures
            r@ == self@.slots,
    {
        self.table.clone()
    }

}

} // verus!
