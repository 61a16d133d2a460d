//! One polling pipeline as a state machine: feed names wait for a fetch
//! slot, the posts of each finished fetch are turned into identifiers, and
//! identifiers wait for a pin slot. The caller performs the actions and
//! reports back what happened.

use vstd::prelude::*;
use crate::config::{Config, ConfigError, ConfigView};
use crate::extract::{
    extract_all,
    identifiers_of_all,
    malformed_in,
    positions,
    reasons_hold,
    MetadataError,
};
use crate::message::{
    texts,
    EntryView,
    RequestGetDiscussionsByBlog,
    RequestView,
    ResponseGetDiscussionsByBlog,
};
use crate::pool::{Pool, PoolView};

verus! {

/// How many posts are asked of a feed.
pub const FETCH_LIMIT: i32 = 100;

/// What the caller reports to the pipeline.
#[derive(Debug)]
pub enum Event {
    /// The scheduler fired: a new cycle begins.
    Tick,
    /// An outstanding fetch returned these posts.
    FetchSucceeded(ResponseGetDiscussionsByBlog),
    /// An outstanding fetch failed.
    FetchFailed,
    /// An outstanding pin request was granted.
    PinSucceeded,
    /// An outstanding pin request failed.
    PinFailed,
}

/// What an `Event` holds.
pub enum EventView {
    Tick,
    FetchSucceeded(Seq<EntryView>),
    FetchFailed,
    PinSucceeded,
    PinFailed,
}

impl View for Event {
    type V = EventView;

    open spec fn view(&self) -> EventView {
        match self {
            Event::Tick => EventView::Tick,
            Event::FetchSucceeded(posts) => EventView::FetchSucceeded(posts@),
            Event::FetchFailed => EventView::FetchFailed,
            Event::PinSucceeded => EventView::PinSucceeded,
            Event::PinFailed => EventView::PinFailed,
        }
    }
}

/// What the pipeline asks the caller to do.
#[derive(Debug)]
pub enum Action {
    /// Send this request to the feed service.
    Fetch(RequestGetDiscussionsByBlog),
    /// Ask the storage network to retain this identifier.
    Pin { hash: String, recursive: bool },
}

/// What an `Action` holds.
pub enum ActionView {
    Fetch(RequestView),
    Pin { hash: Seq<char>, recursive: bool },
}

impl View for Action {
    type V = ActionView;

    open spec fn view(&self) -> ActionView {
        match self {
            Action::Fetch(request) => ActionView::Fetch(request@),
            Action::Pin { hash, recursive } => ActionView::Pin {
                hash: hash@,
                recursive: *recursive,
            },
        }
    }
}

/// What a list of actions holds.
pub open spec fn action_views(actions: Seq<Action>) -> Seq<ActionView> {
    actions.map_values(|a: Action| a@)
}

/// The fetch of one feed: its most recent `FETCH_LIMIT` posts.
pub open spec fn fetch_of(feed: Seq<char>) -> ActionView {
    ActionView::Fetch(RequestView { limit: FETCH_LIMIT as int, tag: feed })
}

/// The pin request for one identifier; retention is always recursive.
pub open spec fn pin_of(hash: Seq<char>) -> ActionView {
    ActionView::Pin { hash, recursive: true }
}

/// The fetches of a run of feeds, in order.
pub open spec fn fetches_of(feeds: Seq<Seq<char>>) -> Seq<ActionView> {
    feeds.map_values(|feed: Seq<char>| fetch_of(feed))
}

/// The pin requests of a run of identifiers, in order.
pub open spec fn pins_of(hashes: Seq<Seq<char>>) -> Seq<ActionView> {
    hashes.map_values(|hash: Seq<char>| pin_of(hash))
}

/// Why an event was turned away.
#[derive(Debug, Clone, Copy, PartialEq, Eq, Structural)]
pub enum PipelineError {
    /// A fetch was reported as finished while none was outstanding.
    NoFetchOutstanding,
    /// A pin request was reported as finished while none was outstanding.
    NoPinOutstanding,
}

/// What a `Pipeline` holds.
pub struct PipelineView {
    pub config: ConfigView,
    pub fetches: PoolView,
    pub pins: PoolView,
}

impl PipelineView {
    /// The pipeline before the first event.
    pub open spec fn initial(config: ConfigView) -> PipelineView {
        PipelineView {
            config,
            fetches: PoolView::fresh(config.concurrent_requests),
            pins: PoolView::fresh(config.concurrent_pins),
        }
    }

    /// Each stage runs under its configured limit and within it.
    pub open spec fn wf(self) -> bool {
        &&& self.fetches.wf()
        &&& self.pins.wf()
        &&& self.fetches.limit == self.config.concurrent_requests
        &&& self.pins.limit == self.config.concurrent_pins
    }

    /// An event is turned away when it reports the end of an operation of a
    /// stage that has none outstanding.
    pub open spec fn refusal(self, event: EventView) -> Option<PipelineError> {
        match event {
            EventView::Tick => None,
            EventView::FetchSucceeded(_) | EventView::FetchFailed => if self.fetches.in_flight
                > 0 {
                None
            } else {
                Some(PipelineError::NoFetchOutstanding)
            },
            EventView::PinSucceeded | EventView::PinFailed => if self.pins.in_flight > 0 {
                None
            } else {
                Some(PipelineError::NoPinOutstanding)
            },
        }
    }

    /// The pipeline after an accepted event has been taken in and before
    /// anything new is started: a tick queues every configured feed, a
    /// finished fetch frees its slot and, if it succeeded, queues the
    /// identifiers of its posts, a finished pin request frees its slot.
    pub open spec fn absorb(self, event: EventView) -> PipelineView {
        match event {
            EventView::Tick => PipelineView {
                fetches: self.fetches.submit(self.config.names),
                ..self
            },
            EventView::FetchSucceeded(posts) => PipelineView {
                fetches: self.fetches.finish(),
                pins: self.pins.submit(identifiers_of_all(posts, self.config)),
                ..self
            },
            EventView::FetchFailed => PipelineView { fetches: self.fetches.finish(), ..self },
            EventView::PinSucceeded | EventView::PinFailed => PipelineView {
                pins: self.pins.finish(),
                ..self
            },
        }
    }

    /// The pipeline after each stage has started what fits under its limit.
    pub open spec fn launch(self) -> PipelineView {
        PipelineView { fetches: self.fetches.start(), pins: self.pins.start(), ..self }
    }

    /// The actions that `launch` hands out: the fetches first, then the pin
    /// requests, each in queue order.
    pub open spec fn launched(self) -> Seq<ActionView> {
        fetches_of(self.fetches.started()) + pins_of(self.pins.started())
    }

    /// The pipeline after an event; a refused event changes nothing.
    pub open spec fn step(self, event: EventView) -> PipelineView {
        if self.refusal(event).is_none() {
            self.absorb(event).launch()
        } else {
            self
        }
    }

    /// The actions that an event sets off; a refused event sets off none.
    pub open spec fn actions(self, event: EventView) -> Seq<ActionView> {
        if self.refusal(event).is_none() {
            self.absorb(event).launched()
        } else {
            Seq::empty()
        }
    }

    /// The positions, in a finished fetch, of the posts whose metadata is rejected.
    pub open spec fn rejected(event: EventView) -> Seq<usize> {
        match event {
            EventView::FetchSucceeded(posts) => malformed_in(posts),
            _ => Seq::empty(),
        }
    }

    /// The pipeline after a run of events.
    pub open spec fn run(self, events: Seq<EventView>) -> PipelineView
        decreases events.len(),
    {
        if events.len() == 0 {
            self
        } else {
            self.run(events.drop_last()).step(events.last())
        }
    }

    /// All actions set off by a run of events, in order.
    pub open spec fn log(self, events: Seq<EventView>) -> Seq<ActionView>
        decreases events.len(),
    {
        if events.len() == 0 {
            Seq::empty()
        } else {
            self.log(events.drop_last()) + self.run(events.drop_last()).actions(events.last())
        }
    }
}

/// What the pipeline hands back for an accepted event.
#[derive(Debug)]
pub struct Outcome {
    /// What to do now, in this order.
    pub actions: Vec<Action>,
    /// The posts of a finished fetch whose metadata was rejected, by position.
    pub rejected: Vec<(usize, MetadataError)>,
}

/// The two stages of the daemon and the configuration they run under.
#[derive(Debug)]
pub struct Pipeline {
    config: Config,
    fetches: Pool,
    pins: Pool,
}

impl View for Pipeline {
    type V = PipelineView;

    closed spec fn view(&self) -> PipelineView {
        PipelineView { config: self.config@, fetches: self.fetches@, pins: self.pins@ }
    }
}

/// A copy of a list of strings.
fn copy_of(strings: &Vec<String>) -> (r: Vec<String>)
    ensures
        texts(r@) == texts(strings@),
{
    let mut copy: Vec<String> = Vec::new();
    let mut i: usize = 0;
    while i < strings.len()
        invariant
            0 <= i <= strings.len(),
            copy@.len() == i,
            forall|k: int| 0 <= k < i ==> copy@[k]@ == strings@[k]@,
        decreases strings.len() - i,
    {
        copy.push(strings[i].clone());
        i += 1;
    }
    assert(texts(copy@) =~= texts(strings@));
    copy
}

impl Pipeline {
    /// A pipeline with nothing queued and nothing outstanding, if the
    /// configuration is valid; else the first condition that it fails.
    pub fn new(config: Config) -> (r: Result<Pipeline, ConfigError>)
        ensures
            r.is_ok() == config@.valid(),
            r.is_ok() ==> r.unwrap()@ == PipelineView::initial(config@) && r.unwrap()@.wf(),
            r.is_err() ==> config@.defect() == Some(r.unwrap_err()),
    {
        match config.validate() {
            Ok(()) => {
                let fetches = Pool::new(config.concurrent_requests).unwrap();
                let pins = Pool::new(config.concurrent_pins).unwrap();
                Ok(Pipeline { config, fetches, pins })
            },
            Err(e) => Err(e),
        }
    }

    /// The configuration that the pipeline runs under.
    pub fn config(&self) -> (r: &Config)
        ensures
            r@ == self@.config,
    {
        &self.config
    }

    /// The number of fetches that were started and have not finished.
    pub fn fetches_in_flight(&self) -> (r: usize)
        ensures
            r == self@.fetches.in_flight,
            r <= self@.fetches.limit,
    {
        self.fetches.in_flight()
    }

    /// The number of pin requests that were started and have not finished.
    pub fn pins_in_flight(&self) -> (r: usize)
        ensures
            r == self@.pins.in_flight,
            r <= self@.pins.limit,
    {
        self.pins.in_flight()
    }

    /// The number of feeds that wait for a fetch slot.
    pub fn feeds_waiting(&self) -> (r: usize)
        ensures
            r == self@.fetches.pending.len(),
    {
        self.fetches.waiting()
    }

    /// The number of identifiers that wait for a pin slot.
    pub fn pins_waiting(&self) -> (r: usize)
        ensures
            r == self@.pins.pending.len(),
    {
        self.pins.waiting()
    }

    /// Starts what fits under the two limits and lists it as actions.
    fn launch(&mut self) -> (r: Vec<Action>)
        ensures
            final(self)@ == old(self)@.launch(),
            action_views(r@) == old(self)@.launched(),
            final(self)@.fetches.in_flight <= final(self)@.fetches.limit,
            final(self)@.pins.in_flight <= final(self)@.pins.limit,
    {
        let feeds = self.fetches.start();
        let hashes = self.pins.start();
        let ghost asked = feeds@;
        let ghost pinned = hashes@;
        let mut actions: Vec<Action> = Vec::new();
        assert(action_views(actions@) =~= fetches_of(texts(asked.take(0))));
        for feed in waiting: feeds
            invariant
                waiting.seq() == asked,
                action_views(actions@) == fetches_of(texts(asked.take(waiting.index() as int))),
        {
            let ghost done = waiting.index() as int;
            let ghost before = action_views(actions@);
            actions.push(Action::Fetch(RequestGetDiscussionsByBlog { limit: FETCH_LIMIT, tag: feed }));
            assert(action_views(actions@) =~= before.push(fetch_of(feed@)));
            assert(fetches_of(texts(asked.take(done + 1))) =~= fetches_of(
                texts(asked.take(done)),
            ).push(fetch_of(feed@)));
        }
        assert(asked.take(asked.len() as int) =~= asked);
        assert(pins_of(texts(pinned.take(0))) =~= Seq::empty());
        assert(fetches_of(texts(asked)) + Seq::empty() =~= fetches_of(texts(asked)));
        for hash in waiting: hashes
            invariant
                waiting.seq() == pinned,
                action_views(actions@) == fetches_of(texts(asked)) + pins_of(
                    texts(pinned.take(waiting.index() as int)),
                ),
        {
            let ghost done = waiting.index() as int;
            let ghost before = action_views(actions@);
            actions.push(Action::Pin { hash, recursive: true });
            assert(action_views(actions@) =~= before.push(pin_of(hash@)));
            assert(pins_of(texts(pinned.take(done + 1))) =~= pins_of(texts(pinned.take(done))).push(
                pin_of(hash@),
            ));
        }
        assert(pinned.take(pinned.len() as int) =~= pinned);
        actions
    }

    /// Takes in one event and says what to do next.
    ///
    /// A tick queues every configured feed. The end of a fetch frees a fetch
    /// slot; if the fetch succeeded, the identifiers of its posts are queued,
    /// and the posts whose metadata was rejected are listed. The end of a pin
    /// request frees a pin slot. A failure frees its slot like a success and
    /// touches nothing else. Then each stage starts, oldest first, what fits
    /// under its limit. An event that reports the end of an operation while
    /// none is outstanding is refused and changes nothing.
    pub fn handle(&mut self, event: Event) -> (r: Result<Outcome, PipelineError>)
        ensures
            final(self)@ == old(self)@.step(event@),
            match r {
                Ok(outcome) => {
                    &&& old(self)@.refusal(event@).is_none()
                    &&& action_views(outcome.actions@) == old(self)@.actions(event@)
                    &&& positions(outcome.rejected@) == PipelineView::rejected(event@)
                    &&& event@ matches EventView::FetchSucceeded(posts) ==> reasons_hold(
                        posts,
                        outcome.rejected@,
                    )
                },
                Err(e) => old(self)@.refusal(event@) == Some(e),
            },
            final(self)@.fetches.in_flight <= final(self)@.fetches.limit,
            final(self)@.pins.in_flight <= final(self)@.pins.limit,
            old(self)@.wf() ==> final(self)@.wf(),
    {
        // Asked for their contracts: each count is within its limit.
        let _ = self.fetches.in_flight();
        let _ = self.pins.in_flight();
        let mut rejected: Vec<(usize, MetadataError)> = Vec::new();
        assert(positions(rejected@) =~= Seq::empty());
        match event {
            Event::Tick => {
                let names = copy_of(&self.config.names);
                self.fetches.submit_all(names);
            },
            Event::FetchSucceeded(posts) => {
                if !self.fetches.finish() {
                    return Err(PipelineError::NoFetchOutstanding);
                }
                let extracted = extract_all(&posts, &self.config);
                self.pins.submit_all(extracted.identifiers);
                rejected = extracted.rejected;
            },
            Event::FetchFailed => {
                if !self.fetches.finish() {
                    return Err(PipelineError::NoFetchOutstanding);
                }
            },
            Event::PinSucceeded | Event::PinFailed => {
                if !self.pins.finish() {
                    return Err(PipelineError::NoPinOutstanding);
                }
            },
        }
        proof {
            old(self)@.absorb(event@).fetches.lemma_start();
            old(self)@.absorb(event@).pins.lemma_start();
        }
        let actions = self.launch();
        Ok(Outcome { actions, rejected })
    }
}

} // verus!
