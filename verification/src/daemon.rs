//! The schedule and the pipeline put together: every cycle that falls due
//! becomes a tick of the pipeline, and everything else that happens is
//! reported to the pipeline as it is.

use vstd::prelude::*;
use crate::config::{Config, ConfigError};
use crate::extract::{positions, reasons_hold};
use crate::pipeline::{
    action_views,
    Action,
    ActionView,
    Event,
    EventView,
    Outcome,
    Pipeline,
    PipelineError,
    PipelineView,
};
use crate::scheduler::{Scheduler, SchedulerView, Wake};

verus! {

/// A run of ticks and nothing else.
pub open spec fn ticks(count: nat) -> Seq<EventView> {
    Seq::new(count, |i: int| EventView::Tick)
}

/// What a `Daemon` holds.
pub struct DaemonView {
    pub scheduler: SchedulerView,
    pub pipeline: PipelineView,
}

impl DaemonView {
    /// The daemon after it was woken at `now`: the scheduler has handed out
    /// every cycle that was due, and the pipeline has taken a tick for each.
    pub open spec fn wake(self, now: nat) -> DaemonView {
        DaemonView {
            scheduler: self.scheduler.caught_up(now),
            pipeline: self.pipeline.run(ticks(self.scheduler.cycles_due(now))),
        }
    }

    /// The actions that waking at `now` sets off.
    pub open spec fn woken(self, now: nat) -> Seq<ActionView> {
        self.pipeline.log(ticks(self.scheduler.cycles_due(now)))
    }
}

/// What to do after the daemon was woken.
#[derive(Debug)]
pub struct Turn {
    /// What to start now, in this order.
    pub actions: Vec<Action>,
    /// How long nothing will be due: `Sleep` with the time to the next
    /// anchor, or `Never`.
    pub rest: Wake,
}

/// A scheduler and the pipeline that it drives.
#[derive(Debug)]
pub struct Daemon {
    scheduler: Scheduler,
    pipeline: Pipeline,
}

impl View for Daemon {
    type V = DaemonView;

    closed spec fn view(&self) -> DaemonView {
        DaemonView { scheduler: self.scheduler@, pipeline: self.pipeline@ }
    }
}

impl Daemon {
    /// A daemon whose first cycle is due at `start_ms`, if the configuration
    /// is valid; else the first condition that it fails.
    pub fn new(config: Config, start_ms: u64) -> (r: Result<Daemon, ConfigError>)
        ensures
            r.is_ok() == config@.valid(),
            r.is_ok() ==> r.unwrap()@ == (DaemonView {
                scheduler: SchedulerView::starting(start_ms as nat, config@.interval_ms),
                pipeline: PipelineView::initial(config@),
            }),
            r.is_err() ==> config@.defect() == Some(r.unwrap_err()),
    {
        let interval_ms = config.interval_ms;
        match Pipeline::new(config) {
            Ok(pipeline) => {
                let scheduler = Scheduler::new(start_ms, interval_ms).unwrap();
                Ok(Daemon { scheduler, pipeline })
            },
            Err(e) => Err(e),
        }
    }

    /// The pipeline as it stands.
    pub fn pipeline(&self) -> (r: &Pipeline)
        ensures
            r@ == self@.pipeline,
    {
        &self.pipeline
    }

    /// The scheduler as it stands.
    pub fn scheduler(&self) -> (r: &Scheduler)
        ensures
            r@ == self@.scheduler,
    {
        &self.scheduler
    }

    /// Wakes the daemon at `now_ms`. Every cycle that is due is handed to
    /// the pipeline as a tick, the oldest first, and what the ticks set off
    /// is returned together with the time for which nothing more is due.
    pub fn wake(&mut self, now_ms: u64) -> (r: Turn)
        ensures
            final(self)@ == old(self)@.wake(now_ms as nat),
            action_views(r.actions@) == old(self)@.woken(now_ms as nat),
            r.rest == final(self)@.scheduler.answer(now_ms as nat),
            r.rest != Wake::Fire,
    {
        let ghost start = self@;
        let ghost now = now_ms as nat;
        let ghost mut done: nat = 0;
        let mut actions: Vec<Action> = Vec::new();
        // Asked for its contract: the interval is positive.
        let _ = self.scheduler.interval_ms();
        assert(ticks(0) =~= Seq::empty());
        assert(action_views(actions@) =~= Seq::empty());
        loop
            invariant
                now == now_ms,
                start == old(self)@,
                self@.scheduler.interval > 0,
                self@.scheduler.cycles_due(now) + done == start.scheduler.cycles_due(now),
                self@.scheduler.caught_up(now) == start.scheduler.caught_up(now),
                self@.pipeline == start.pipeline.run(ticks(done)),
                action_views(actions@) == start.pipeline.log(ticks(done)),
            decreases self@.scheduler.cycles_due(now),
        {
            let ghost before = self@;
            let ghost told = action_views(actions@);
            let rest = self.scheduler.poll(now_ms);
            match rest {
                Wake::Fire => {
                    match self.pipeline.handle(Event::Tick) {
                        Ok(mut outcome) => {
                            let ghost more = action_views(outcome.actions@);
                            actions.append(&mut outcome.actions);
                            assert(action_views(actions@) =~= told + more);
                        },
                        Err(_) => {},
                    }
                    proof {
                        let next = ticks(done + 1);
                        assert(next.drop_last() =~= ticks(done));
                        assert(next.last() == EventView::Tick);
                        done = done + 1;
                    }
                },
                _ => {
                    return Turn { actions, rest };
                },
            }
        }
    }

    /// Reports an event to the pipeline: the end of a fetch or of a pin
    /// request, or a tick asked for out of turn. The schedule is not touched.
    pub fn report(&mut self, event: Event) -> (r: Result<Outcome, PipelineError>)
        ensures
            final(self)@.scheduler == old(self)@.scheduler,
            final(self)@.pipeline == old(self)@.pipeline.step(event@),
            match r {
                Ok(outcome) => {
                    &&& old(self)@.pipeline.refusal(event@).is_none()
                    &&& action_views(outcome.actions@) == old(self)@.pipeline.actions(event@)
                    &&& positions(outcome.rejected@) == PipelineView::rejected(event@)
                    &&& event@ matches EventView::FetchSucceeded(posts) ==> reasons_hold(
                        posts,
                        outcome.rejected@,
                    )
                },
                Err(e) => old(self)@.pipeline.refusal(event@) == Some(e),
            },
    {
        self.pipeline.handle(event)
    }
}

} // verus!
