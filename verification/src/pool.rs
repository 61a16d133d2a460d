//! A bounded pool of operations: work waits in a queue and is started in
//! arrival order while fewer operations than the limit are outstanding.

use std::collections::VecDeque;
use vstd::prelude::*;
use crate::message::texts;

verus! {

/// What a `Pool` holds: its limit, the number of operations that were
/// started and have not finished, and the work that waits, oldest first.
pub struct PoolView {
    pub limit: nat,
    pub in_flight: nat,
    pub pending: Seq<Seq<char>>,
}

impl PoolView {
    /// The limit is at least one and is never exceeded.
    pub open spec fn wf(self) -> bool {
        1 <= self.limit && self.in_flight <= self.limit
    }

    /// An empty pool.
    pub open spec fn fresh(limit: nat) -> PoolView {
        PoolView { limit, in_flight: 0, pending: Seq::empty() }
    }

    /// How many more operations may be started.
    pub open spec fn room(self) -> nat {
        if self.in_flight <= self.limit {
            (self.limit - self.in_flight) as nat
        } else {
            0
        }
    }

    /// How many waiting items can be started at once.
    pub open spec fn ready(self) -> nat {
        if self.pending.len() <= self.room() {
            self.pending.len()
        } else {
            self.room()
        }
    }

    /// The pool after more work has arrived.
    pub open spec fn submit(self, items: Seq<Seq<char>>) -> PoolView {
        PoolView { pending: self.pending + items, ..self }
    }

    /// The items that `start` takes from the queue: the oldest, as many as fit.
    pub open spec fn started(self) -> Seq<Seq<char>> {
        self.pending.take(self.ready() as int)
    }

    /// The pool after as many waiting items as fit have been started.
    pub open spec fn start(self) -> PoolView {
        PoolView {
            in_flight: self.in_flight + self.ready(),
            pending: self.pending.skip(self.ready() as int),
            ..self
        }
    }

    /// The pool after one outstanding operation has finished.
    pub open spec fn finish(self) -> PoolView {
        if self.in_flight > 0 {
            PoolView { in_flight: (self.in_flight - 1) as nat, ..self }
        } else {
            self
        }
    }

    /// Starting never exceeds the limit, and leaves work waiting only when
    /// the pool is full.
    pub proof fn lemma_start(self)
        requires
            self.wf(),
        ensures
            self.start().wf(),
            self.start().ready() == 0,
            self.start().pending.len() > 0 ==> self.start().in_flight == self.limit,
            self.started() + self.start().pending == self.pending,
    {
        assert(self.started() + self.start().pending =~= self.pending);
    }
}

/// The counter of a pool: how many operations are outstanding, under a limit
/// that is at least one and that the count never exceeds.
#[derive(Debug)]
pub struct Slots {
    limit: usize,
    in_flight: usize,
}

impl Slots {
    #[verifier::type_invariant]
    spec fn inv(self) -> bool {
        1 <= self.limit && self.in_flight <= self.limit
    }

    /// The limit.
    pub closed spec fn spec_limit(self) -> nat {
        self.limit as nat
    }

    /// The number of slots taken.
    pub closed spec fn spec_in_flight(self) -> nat {
        self.in_flight as nat
    }

    /// A counter with every slot free; there is none with limit zero.
    pub fn new(limit: usize) -> (r: Option<Slots>)
        ensures
            r.is_some() == (limit >= 1),
            r.is_some() ==> r.unwrap().spec_limit() == limit && r.unwrap().spec_in_flight() == 0,
    {
        if limit == 0 {
            None
        } else {
            Some(Slots { limit, in_flight: 0 })
        }
    }

    /// The limit.
    pub fn limit(&self) -> (r: usize)
        ensures
            r == self.spec_limit(),
            r >= 1,
    {
        proof {
            use_type_invariant(self);
        }
        self.limit
    }

    /// The number of slots taken, which is never above the limit.
    pub fn in_flight(&self) -> (r: usize)
        ensures
            r == self.spec_in_flight(),
            r <= self.spec_limit(),
    {
        proof {
            use_type_invariant(self);
        }
        self.in_flight
    }

    /// Takes a slot if one is free, and says whether it did.
    pub fn acquire(&mut self) -> (r: bool)
        ensures
            r == (old(self).spec_in_flight() < old(self).spec_limit()),
            final(self).spec_limit() == old(self).spec_limit(),
            final(self).spec_in_flight() == old(self).spec_in_flight() + if r {
                1nat
            } else {
                0nat
            },
            final(self).spec_in_flight() <= final(self).spec_limit(),
    {
        proof {
            use_type_invariant(&*self);
        }
        if self.in_flight < self.limit {
            self.in_flight = self.in_flight + 1;
            true
        } else {
            false
        }
    }

    /// Frees a slot if one is taken, and says whether it did.
    pub fn release(&mut self) -> (r: bool)
        ensures
            r == (old(self).spec_in_flight() > 0),
            final(self).spec_limit() == old(self).spec_limit(),
            final(self).spec_in_flight() == old(self).spec_in_flight() - if r {
                1int
            } else {
                0int
            },
            final(self).spec_in_flight() <= final(self).spec_limit(),
    {
        proof {
            use_type_invariant(&*self);
        }
        if self.in_flight > 0 {
            self.in_flight = self.in_flight - 1;
            true
        } else {
            false
        }
    }
}

/// A queue of work and a count of running operations under a fixed limit.
#[derive(Debug)]
pub struct Pool {
    slots: Slots,
    pending: VecDeque<String>,
}

impl View for Pool {
    type V = PoolView;

    closed spec fn view(&self) -> PoolView {
        PoolView {
            limit: self.slots.spec_limit(),
            in_flight: self.slots.spec_in_flight(),
            pending: texts(self.pending@),
        }
    }
}

impl Pool {
    /// An empty pool with the given limit; there is none with limit zero.
    pub fn new(limit: usize) -> (r: Option<Pool>)
        ensures
            r.is_some() == (limit >= 1),
            r.is_some() ==> r.unwrap()@ == PoolView::fresh(limit as nat),
    {
        match Slots::new(limit) {
            Some(slots) => {
                let pool = Pool { slots, pending: VecDeque::new() };
                assert(texts(pool.pending@) =~= Seq::empty());
                Some(pool)
            },
            None => None,
        }
    }

    /// The most operations that may be outstanding at once.
    pub fn limit(&self) -> (r: usize)
        ensures
            r == self@.limit,
            r >= 1,
    {
        self.slots.limit()
    }

    /// The number of operations that were started and have not finished.
    /// It is never above the limit.
    pub fn in_flight(&self) -> (r: usize)
        ensures
            r == self@.in_flight,
            self@.wf(),
    {
        // Asked for its contract: the limit is at least one.
        let _ = self.slots.limit();
        self.slots.in_flight()
    }

    /// The number of items that wait for a free slot.
    pub fn waiting(&self) -> (r: usize)
        ensures
            r == self@.pending.len(),
    {
        self.pending.len()
    }

    /// Puts one item at the end of the queue.
    pub fn submit(&mut self, item: String)
        ensures
            final(self)@ == old(self)@.submit(seq![item@]),
    {
        self.pending.push_back(item);
        assert(texts(self.pending@) =~= texts(old(self).pending@) + seq![item@]);
    }

    /// Puts the items at the end of the queue, in their order.
    pub fn submit_all(&mut self, items: Vec<String>)
        ensures
            final(self)@ == old(self)@.submit(texts(items@)),
    {
        let ghost before = self@;
        let ghost all = items@;
        assert(texts(all.take(0)) =~= Seq::empty());
        assert(before.pending + Seq::empty() =~= before.pending);
        for item in arriving: items
            invariant
                arriving.seq() == all,
                self@ == before.submit(texts(all.take(arriving.index() as int))),
        {
            let ghost done = arriving.index() as int;
            let ghost queued = self.pending@;
            self.pending.push_back(item);
            assert(texts(self.pending@) =~= texts(queued) + seq![item@]);
            assert(texts(all.take(done + 1)) =~= texts(all.take(done)) + seq![item@]);
            assert(before.pending + texts(all.take(done)) + seq![item@] =~= before.pending
                + texts(all.take(done + 1)));
        }
        assert(all.take(all.len() as int) =~= all);
    }

    /// Starts as many waiting items as fit under the limit and returns them,
    /// oldest first. Nothing is started when the pool is full.
    pub fn start(&mut self) -> (r: Vec<String>)
        ensures
            texts(r@) == old(self)@.started(),
            final(self)@ == old(self)@.start(),
            final(self)@.in_flight <= final(self)@.limit,
    {
        let mut taken: Vec<String> = Vec::new();
        let ghost before = self@;
        let limit = self.slots.limit();
        // Asked for its contract: the count is within the limit.
        let _ = self.slots.in_flight();
        assert(texts(taken@) =~= before.pending.take(0));
        assert(before.pending.skip(0) =~= before.pending);
        while self.slots.in_flight() < limit && self.pending.len() > 0
            invariant
                before.wf(),
                limit == before.limit,
                self@.limit == before.limit,
                taken@.len() <= before.ready(),
                self@.in_flight == before.in_flight + taken@.len(),
                texts(taken@) == before.pending.take(taken@.len() as int),
                texts(self.pending@) == before.pending.skip(taken@.len() as int),
            decreases self.pending@.len(),
        {
            let ghost n = taken@.len() as int;
            let ghost queued = self.pending@;
            assert(texts(queued).len() == queued.len());
            let item = self.pending.pop_front().unwrap();
            let taken_slot = self.slots.acquire();
            assert(taken_slot);
            taken.push(item);
            assert(item@ == texts(queued)[0]);
            assert(texts(self.pending@) =~= texts(queued).skip(1));
            assert(before.pending.skip(n).skip(1) =~= before.pending.skip(n + 1));
            assert(texts(taken@) =~= before.pending.take(n).push(item@));
            assert(before.pending.take(n).push(before.pending[n]) =~= before.pending.take(n + 1));
        }
        assert(texts(self.pending@).len() == self.pending@.len());
        assert(taken@.len() == before.ready());
        taken
    }

    /// Records that one outstanding operation has finished, whatever its
    /// outcome. Returns `false`, and changes nothing, when none is outstanding.
    pub fn finish(&mut self) -> (r: bool)
        ensures
            r == (old(self)@.in_flight > 0),
            final(self)@ == old(self)@.finish(),
    {
        self.slots.release()
    }
}

} // verus!
