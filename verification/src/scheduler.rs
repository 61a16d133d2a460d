//! The fixed-rate schedule of polling cycles.
//!
//! Cycles are due at anchors: the first at the start, each later one a whole
//! interval after the one before. An anchor depends on the start, the
//! interval and its number alone: neither the time at which the scheduler is
//! asked nor the time a cycle takes moves it. Times are milliseconds on a
//! clock of the caller's choice that never runs backwards; an anchor beyond
//! the largest time that the clock can tell is never due.

use vstd::prelude::*;

verus! {

/// What a `Scheduler` holds: the interval and the anchor of the next cycle,
/// if there is one.
pub struct SchedulerView {
    pub interval: nat,
    pub next_due: Option<nat>,
}

/// The anchor of cycle number `cycle`, the first cycle being number zero, if
/// the clock can tell it.
pub open spec fn anchor(start: nat, interval: nat, cycle: nat) -> Option<nat> {
    if start + cycle * interval <= u64::MAX {
        Some(start + cycle * interval)
    } else {
        None
    }
}

/// The anchor one interval after `anchor`, if the clock can tell it.
pub open spec fn anchor_after(anchor: nat, interval: nat) -> Option<nat> {
    if anchor + interval <= u64::MAX {
        Some(anchor + interval)
    } else {
        None
    }
}

impl SchedulerView {
    /// A scheduler whose first cycle is due at `start`.
    pub open spec fn starting(start: nat, interval: nat) -> SchedulerView {
        SchedulerView { interval, next_due: Some(start) }
    }

    /// Whether a cycle is due at `now`.
    pub open spec fn due(self, now: nat) -> bool {
        match self.next_due {
            Some(at) => now >= at,
            None => false,
        }
    }

    /// The scheduler after it was asked at `now`: a due cycle is handed out
    /// and the next anchor takes its place.
    pub open spec fn poll(self, now: nat) -> SchedulerView {
        if self.due(now) {
            SchedulerView {
                next_due: anchor_after(self.next_due.unwrap(), self.interval),
                ..self
            }
        } else {
            self
        }
    }

    /// What the scheduler answers at `now`.
    pub open spec fn answer(self, now: nat) -> Wake {
        match self.next_due {
            Some(at) => if now >= at {
                Wake::Fire
            } else {
                Wake::Sleep((at - now) as u64)
            },
            None => Wake::Never,
        }
    }

    /// The scheduler after it was asked at each of these times in turn.
    pub open spec fn run(self, polls: Seq<nat>) -> SchedulerView
        decreases polls.len(),
    {
        if polls.len() == 0 {
            self
        } else {
            self.run(polls.drop_last()).poll(polls.last())
        }
    }

    /// How many cycles were handed out when the scheduler was asked at each
    /// of these times in turn.
    pub open spec fn fired(self, polls: Seq<nat>) -> nat
        decreases polls.len(),
    {
        if polls.len() == 0 {
            0
        } else if self.run(polls.drop_last()).due(polls.last()) {
            self.fired(polls.drop_last()) + 1
        } else {
            self.fired(polls.drop_last())
        }
    }

    /// How many cycles are due at `now` and not yet handed out.
    pub open spec fn cycles_due(self, now: nat) -> nat
        decreases
                (if self.due(now) {
                    now - self.next_due.unwrap() + 1
                } else {
                    0
                }),
    {
        if self.due(now) && self.interval > 0 {
            self.poll(now).cycles_due(now) + 1
        } else {
            0
        }
    }

    /// The scheduler after every cycle due at `now` was handed out.
    pub open spec fn caught_up(self, now: nat) -> SchedulerView
        decreases
                (if self.due(now) {
                    now - self.next_due.unwrap() + 1
                } else {
                    0
                }),
    {
        if self.due(now) && self.interval > 0 {
            self.poll(now).caught_up(now)
        } else {
            self
        }
    }

    /// By any time the number of cycles that have fallen due is fixed by the
    /// start and the interval: one at the anchor that is next, and one more
    /// for each whole interval that has passed since. Handing them all out
    /// leaves the anchor that follows the last of them.
    pub proof fn lemma_cycles_due_by(self, now: nat)
        requires
            self.interval > 0,
            now <= u64::MAX,
            self.due(now),
        ensures
            self.cycles_due(now) == (now - self.next_due.unwrap()) / (self.interval as int) + 1,
            self.caught_up(now).interval == self.interval,
            self.caught_up(now).next_due == anchor_after(
                (self.next_due.unwrap() + (self.cycles_due(now) - 1) * self.interval) as nat,
                self.interval,
            ),
            !self.caught_up(now).due(now),
        decreases now - self.next_due.unwrap(),
    {
        let at = self.next_due.unwrap() as int;
        let step = self.interval as int;
        let gone = now - at;
        let after = self.poll(now);
        assert(self.cycles_due(now) == after.cycles_due(now) + 1);
        assert(self.caught_up(now) == after.caught_up(now));
        if after.due(now) {
            after.lemma_cycles_due_by(now);
            assert(gone / step == (gone - step) / step + 1) by (nonlinear_arith)
                requires
                    step > 0,
                    gone >= step,
            ;
            let more = after.cycles_due(now);
            assert(at + step + (more - 1) * step == at + more * step) by (nonlinear_arith);
        } else {
            assert(after.cycles_due(now) == 0);
            assert(after.caught_up(now) == after);
            assert(gone / step == 0) by (nonlinear_arith)
                requires
                    step > 0,
                    0 <= gone < step,
            ;
            assert(at + 0 * step == at) by (nonlinear_arith);
        }
    }

    /// The schedule is fixed-rate: however often and however late the
    /// scheduler is asked, the next cycle is due at the anchor of its number,
    /// which is the start plus as many intervals as cycles were handed out.
    pub proof fn lemma_cycles_keep_their_anchors(start: nat, interval: nat, polls: Seq<nat>)
        requires
            start <= u64::MAX,
            interval > 0,
        ensures
            Self::starting(start, interval).run(polls).interval == interval,
            Self::starting(start, interval).run(polls).next_due == anchor(
                start,
                interval,
                Self::starting(start, interval).fired(polls),
            ),
        decreases polls.len(),
    {
        let first = Self::starting(start, interval);
        if polls.len() == 0 {
            assert(0 * interval == 0) by (nonlinear_arith);
        } else {
            Self::lemma_cycles_keep_their_anchors(start, interval, polls.drop_last());
            let n = first.fired(polls.drop_last());
            assert((n + 1) * interval == n * interval + interval) by (nonlinear_arith);
        }
    }

    /// A cycle is handed out exactly when the scheduler is asked at or after
    /// the cycle's anchor: never early, and at the first question that is not.
    pub proof fn lemma_fires_at_its_anchor(start: nat, interval: nat, polls: Seq<nat>, now: nat)
        requires
            start <= u64::MAX,
            interval > 0,
        ensures
            ({
                let next = anchor(
                    start,
                    interval,
                    Self::starting(start, interval).fired(polls),
                );
                Self::starting(start, interval).run(polls).due(now) <==> next.is_some() && now
                    >= next.unwrap()
            }),
    {
        Self::lemma_cycles_keep_their_anchors(start, interval, polls);
    }
}

/// What the scheduler answers.
#[derive(Debug, Clone, Copy, PartialEq, Eq, Structural)]
pub enum Wake {
    /// A cycle is due: start it now, then ask again.
    Fire,
    /// Nothing is due for this many milliseconds.
    Sleep(u64),
    /// No cycle will be due again: the next anchor is beyond the clock.
    Never,
}

/// Hands out polling cycles at a fixed rate.
#[derive(Debug)]
pub struct Scheduler {
    interval_ms: u64,
    next_due_ms: Option<u64>,
}

impl View for Scheduler {
    type V = SchedulerView;

    closed spec fn view(&self) -> SchedulerView {
        SchedulerView {
            interval: self.interval_ms as nat,
            next_due: match self.next_due_ms {
                Some(at) => Some(at as nat),
                None => None,
            },
        }
    }
}

impl Scheduler {
    #[verifier::type_invariant]
    spec fn inv(self) -> bool {
        self.interval_ms > 0
    }

    /// A scheduler whose first cycle is due at once, at `start_ms`; there is
    /// none with a zero interval.
    pub fn new(start_ms: u64, interval_ms: u64) -> (r: Option<Scheduler>)
        ensures
            r.is_some() == (interval_ms > 0),
            r.is_some() ==> r.unwrap()@ == SchedulerView::starting(
                start_ms as nat,
                interval_ms as nat,
            ),
    {
        if interval_ms == 0 {
            None
        } else {
            Some(Scheduler { interval_ms, next_due_ms: Some(start_ms) })
        }
    }

    /// The time from one anchor to the next; it is positive.
    pub fn interval_ms(&self) -> (r: u64)
        ensures
            r == self@.interval,
            r > 0,
    {
        proof {
            use_type_invariant(self);
        }
        self.interval_ms
    }

    /// The anchor of the next cycle, if there is one.
    pub fn next_due_ms(&self) -> (r: Option<u64>)
        ensures
            r.is_some() == self@.next_due.is_some(),
            r.is_some() ==> r.unwrap() == self@.next_due.unwrap(),
    {
        self.next_due_ms
    }

    /// Asks whether a cycle is due at `now_ms`. If one is, it is handed out
    /// and the next anchor is one interval after its anchor, not after
    /// `now_ms`. If none is, the answer is the time left to the next anchor.
    pub fn poll(&mut self, now_ms: u64) -> (r: Wake)
        ensures
            r == old(self)@.answer(now_ms as nat),
            final(self)@ == old(self)@.poll(now_ms as nat),
            r == Wake::Fire <==> old(self)@.due(now_ms as nat),
    {
        proof {
            use_type_invariant(&*self);
        }
        match self.next_due_ms {
            Some(at) => {
                if now_ms >= at {
                    self.next_due_ms = at.checked_add(self.interval_ms);
                    Wake::Fire
                } else {
                    Wake::Sleep(at - now_ms)
                }
            },
            None => Wake::Never,
        }
    }
}

} // verus!
