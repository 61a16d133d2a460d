//! What holds of every run of the pipeline, whatever events arrive and in
//! whatever order.

use vstd::prelude::*;
use crate::config::ConfigView;
use crate::extract::identifiers_of_all;
use crate::message::EntryView;
use crate::pipeline::{fetch_of, fetches_of, pin_of, pins_of, ActionView, EventView, PipelineView};

verus! {

/// The feeds that a list of actions asks to fetch, in order.
pub open spec fn fetch_tags(actions: Seq<ActionView>) -> Seq<Seq<char>>
    decreases actions.len(),
{
    if actions.len() == 0 {
        Seq::empty()
    } else {
        match actions.last() {
            ActionView::Fetch(request) => fetch_tags(actions.drop_last()).push(request.tag),
            ActionView::Pin { .. } => fetch_tags(actions.drop_last()),
        }
    }
}

/// The identifiers that a list of actions asks to pin, in order.
pub open spec fn pin_hashes(actions: Seq<ActionView>) -> Seq<Seq<char>>
    decreases actions.len(),
{
    if actions.len() == 0 {
        Seq::empty()
    } else {
        match actions.last() {
            ActionView::Fetch(_) => pin_hashes(actions.drop_last()),
            ActionView::Pin { hash, .. } => pin_hashes(actions.drop_last()).push(hash),
        }
    }
}

/// A list of names repeated a number of times.
pub open spec fn repeated(names: Seq<Seq<char>>, times: nat) -> Seq<Seq<char>>
    decreases times,
{
    if times == 0 {
        Seq::empty()
    } else {
        repeated(names, (times - 1) as nat) + names
    }
}

impl PipelineView {
    /// How many ticks a run holds.
    pub open spec fn ticks(events: Seq<EventView>) -> nat
        decreases events.len(),
    {
        if events.len() == 0 {
            0
        } else if events.last() is Tick {
            Self::ticks(events.drop_last()) + 1
        } else {
            Self::ticks(events.drop_last())
        }
    }

    /// How many fetches a run reports as finished, refused reports left out.
    pub open spec fn fetches_finished(self, events: Seq<EventView>) -> nat
        decreases events.len(),
    {
        if events.len() == 0 {
            0
        } else {
            let before = self.run(events.drop_last());
            let last = events.last();
            if (last is FetchSucceeded || last is FetchFailed) && before.refusal(last).is_none() {
                self.fetches_finished(events.drop_last()) + 1
            } else {
                self.fetches_finished(events.drop_last())
            }
        }
    }

    /// How many pin requests a run reports as finished, refused reports left out.
    pub open spec fn pins_finished(self, events: Seq<EventView>) -> nat
        decreases events.len(),
    {
        if events.len() == 0 {
            0
        } else {
            let before = self.run(events.drop_last());
            let last = events.last();
            if (last is PinSucceeded || last is PinFailed) && before.refusal(last).is_none() {
                self.pins_finished(events.drop_last()) + 1
            } else {
                self.pins_finished(events.drop_last())
            }
        }
    }

    /// The identifiers of the posts of every fetch that a run reports as
    /// succeeded, in the order of the reports, refused reports left out.
    pub open spec fn identifiers_found(self, events: Seq<EventView>) -> Seq<Seq<char>>
        decreases events.len(),
    {
        if events.len() == 0 {
            Seq::empty()
        } else {
            let before = self.run(events.drop_last());
            match events.last() {
                EventView::FetchSucceeded(posts) => if before.refusal(events.last()).is_none() {
                    self.identifiers_found(events.drop_last()) + identifiers_of_all(
                        posts,
                        self.config,
                    )
                } else {
                    self.identifiers_found(events.drop_last())
                },
                _ => self.identifiers_found(events.drop_last()),
            }
        }
    }
}

/// The feeds of two lists of actions put together.
pub proof fn lemma_fetch_tags_of_joined(first: Seq<ActionView>, second: Seq<ActionView>)
    ensures
        fetch_tags(first + second) == fetch_tags(first) + fetch_tags(second),
    decreases second.len(),
{
    if second.len() == 0 {
        assert(first + second =~= first);
        assert(fetch_tags(first) + fetch_tags(second) =~= fetch_tags(first));
    } else {
        assert((first + second).drop_last() =~= first + second.drop_last());
        assert((first + second).last() == second.last());
        lemma_fetch_tags_of_joined(first, second.drop_last());
        assert(fetch_tags(first + second) =~= fetch_tags(first) + fetch_tags(second));
    }
}

/// The identifiers of two lists of actions put together.
pub proof fn lemma_pin_hashes_of_joined(first: Seq<ActionView>, second: Seq<ActionView>)
    ensures
        pin_hashes(first + second) == pin_hashes(first) + pin_hashes(second),
    decreases second.len(),
{
    if second.len() == 0 {
        assert(first + second =~= first);
        assert(pin_hashes(first) + pin_hashes(second) =~= pin_hashes(first));
    } else {
        assert((first + second).drop_last() =~= first + second.drop_last());
        assert((first + second).last() == second.last());
        lemma_pin_hashes_of_joined(first, second.drop_last());
        assert(pin_hashes(first + second) =~= pin_hashes(first) + pin_hashes(second));
    }
}

/// A list of fetches asks for exactly its feeds and pins nothing.
pub proof fn lemma_tags_of_fetches(feeds: Seq<Seq<char>>)
    ensures
        fetch_tags(fetches_of(feeds)) == feeds,
        pin_hashes(fetches_of(feeds)) == Seq::<Seq<char>>::empty(),
    decreases feeds.len(),
{
    if feeds.len() > 0 {
        lemma_tags_of_fetches(feeds.drop_last());
        assert(fetches_of(feeds).drop_last() =~= fetches_of(feeds.drop_last()));
        assert(fetches_of(feeds).last() == fetch_of(feeds.last()));
        assert(fetch_tags(fetches_of(feeds)) =~= feeds);
    } else {
        assert(fetch_tags(fetches_of(feeds)) =~= feeds);
    }
}

/// A list of pin requests pins exactly its identifiers and fetches nothing.
pub proof fn lemma_hashes_of_pins(hashes: Seq<Seq<char>>)
    ensures
        pin_hashes(pins_of(hashes)) == hashes,
        fetch_tags(pins_of(hashes)) == Seq::<Seq<char>>::empty(),
    decreases hashes.len(),
{
    if hashes.len() > 0 {
        lemma_hashes_of_pins(hashes.drop_last());
        assert(pins_of(hashes).drop_last() =~= pins_of(hashes.drop_last()));
        assert(pins_of(hashes).last() == pin_of(hashes.last()));
        assert(pin_hashes(pins_of(hashes)) =~= hashes);
    } else {
        assert(pin_hashes(pins_of(hashes)) =~= hashes);
    }
}

impl PipelineView {
    /// What one event sets off is what the two stages start after taking it in.
    pub proof fn lemma_actions_of_step(self, event: EventView)
        ensures
            fetch_tags(self.actions(event)) == if self.refusal(event).is_none() {
                self.absorb(event).fetches.started()
            } else {
                Seq::empty()
            },
            pin_hashes(self.actions(event)) == if self.refusal(event).is_none() {
                self.absorb(event).pins.started()
            } else {
                Seq::empty()
            },
    {
        if self.refusal(event).is_none() {
            let after = self.absorb(event);
            let fetches = fetches_of(after.fetches.started());
            let pins = pins_of(after.pins.started());
            lemma_fetch_tags_of_joined(fetches, pins);
            lemma_pin_hashes_of_joined(fetches, pins);
            lemma_tags_of_fetches(after.fetches.started());
            lemma_hashes_of_pins(after.pins.started());
            assert(after.fetches.started() + Seq::empty() =~= after.fetches.started());
            assert(Seq::empty() + after.pins.started() =~= after.pins.started());
        }
    }

    /// No event takes a stage over its limit.
    pub proof fn lemma_step_keeps_limits(self, event: EventView)
        requires
            self.wf(),
        ensures
            self.step(event).wf(),
            self.step(event).config == self.config,
    {
        if self.refusal(event).is_none() {
            self.absorb(event).fetches.lemma_start();
            self.absorb(event).pins.lemma_start();
        }
    }

    /// At no point of any run are more fetches outstanding than
    /// `concurrent_requests`, nor more pin requests than `concurrent_pins`,
    /// however many feeds and identifiers wait.
    pub proof fn lemma_limits_hold(config: ConfigView, events: Seq<EventView>)
        requires
            config.valid(),
        ensures
            Self::initial(config).run(events).wf(),
            Self::initial(config).run(events).config == config,
            Self::initial(config).run(events).fetches.in_flight <= config.concurrent_requests,
            Self::initial(config).run(events).pins.in_flight <= config.concurrent_pins,
        decreases events.len(),
    {
        if events.len() > 0 {
            Self::lemma_limits_hold(config, events.drop_last());
            Self::initial(config).run(events.drop_last()).lemma_step_keeps_limits(events.last());
        }
    }

    /// The count of outstanding operations is what it claims to be: at every
    /// point of a run, the fetches handed out are those reported as finished
    /// and those still outstanding, and so for the pin requests.
    pub proof fn lemma_outstanding_is_started_less_finished(
        config: ConfigView,
        events: Seq<EventView>,
    )
        requires
            config.valid(),
        ensures
            ({
                let start = Self::initial(config);
                &&& fetch_tags(start.log(events)).len() == start.run(events).fetches.in_flight
                    + start.fetches_finished(events)
                &&& pin_hashes(start.log(events)).len() == start.run(events).pins.in_flight
                    + start.pins_finished(events)
            }),
        decreases events.len(),
    {
        let start = Self::initial(config);
        if events.len() > 0 {
            let earlier = events.drop_last();
            let before = start.run(earlier);
            Self::lemma_outstanding_is_started_less_finished(config, earlier);
            Self::lemma_limits_hold(config, earlier);
            before.lemma_actions_of_step(events.last());
            lemma_fetch_tags_of_joined(start.log(earlier), before.actions(events.last()));
            lemma_pin_hashes_of_joined(start.log(earlier), before.actions(events.last()));
        }
    }

    /// No feed is lost, invented or overtaken: at every point of a run, the
    /// feeds already asked for, followed by those still waiting, are the
    /// configured names once for each tick.
    pub proof fn lemma_every_feed_is_fetched_in_order(config: ConfigView, events: Seq<EventView>)
        requires
            config.valid(),
        ensures
            ({
                let start = Self::initial(config);
                fetch_tags(start.log(events)) + start.run(events).fetches.pending == repeated(
                    config.names,
                    Self::ticks(events),
                )
            }),
        decreases events.len(),
    {
        let start = Self::initial(config);
        if events.len() == 0 {
            assert(fetch_tags(start.log(events)) + start.run(events).fetches.pending
                =~= Seq::empty());
        } else {
            let earlier = events.drop_last();
            let before = start.run(earlier);
            let last = events.last();
            Self::lemma_every_feed_is_fetched_in_order(config, earlier);
            Self::lemma_limits_hold(config, earlier);
            before.lemma_actions_of_step(last);
            lemma_fetch_tags_of_joined(start.log(earlier), before.actions(last));
            let asked = fetch_tags(start.log(earlier));
            if before.refusal(last).is_none() {
                let taken = before.absorb(last).fetches;
                taken.lemma_start();
                assert(asked + taken.started() + taken.start().pending =~= asked + (
                taken.started() + taken.start().pending));
                if last is Tick {
                    assert(asked + (before.fetches.pending + config.names) =~= asked
                        + before.fetches.pending + config.names);
                }
            } else {
                assert(asked + Seq::empty() + before.fetches.pending =~= asked
                    + before.fetches.pending);
            }
        }
    }

    /// No identifier is lost, invented or overtaken: at every point of a run,
    /// the identifiers already handed to the storage network, followed by
    /// those still waiting, are the identifiers of the posts of every
    /// successful fetch, in the order in which the fetches were reported.
    pub proof fn lemma_every_identifier_is_pinned_in_order(
        config: ConfigView,
        events: Seq<EventView>,
    )
        requires
            config.valid(),
        ensures
            ({
                let start = Self::initial(config);
                pin_hashes(start.log(events)) + start.run(events).pins.pending
                    == start.identifiers_found(events)
            }),
        decreases events.len(),
    {
        let start = Self::initial(config);
        if events.len() == 0 {
            assert(pin_hashes(start.log(events)) + start.run(events).pins.pending
                =~= Seq::empty());
        } else {
            let earlier = events.drop_last();
            let before = start.run(earlier);
            let last = events.last();
            Self::lemma_every_identifier_is_pinned_in_order(config, earlier);
            Self::lemma_limits_hold(config, earlier);
            before.lemma_actions_of_step(last);
            lemma_pin_hashes_of_joined(start.log(earlier), before.actions(last));
            let pinned = pin_hashes(start.log(earlier));
            if before.refusal(last).is_none() {
                let taken = before.absorb(last).pins;
                taken.lemma_start();
                assert(pinned + taken.started() + taken.start().pending =~= pinned + (
                taken.started() + taken.start().pending));
                match last {
                    EventView::FetchSucceeded(posts) => {
                        let found = identifiers_of_all(posts, config);
                        assert(pinned + (before.pins.pending + found) =~= pinned
                            + before.pins.pending + found);
                    },
                    _ => {},
                }
            } else {
                assert(pinned + Seq::empty() + before.pins.pending =~= pinned
                    + before.pins.pending);
            }
        }
    }

    /// A failed fetch is the failure of that fetch alone: it is accepted or
    /// refused as a successful one would be, frees the same slot, leaves the
    /// same feeds waiting and sets off the same fetches. It differs from a
    /// fetch that returned no post in nothing at all.
    pub proof fn lemma_failed_fetch_is_isolated(self, posts: Seq<EntryView>)
        ensures
            self.refusal(EventView::FetchFailed) == self.refusal(EventView::FetchSucceeded(posts)),
            self.step(EventView::FetchFailed).fetches == self.step(
                EventView::FetchSucceeded(posts),
            ).fetches,
            fetch_tags(self.actions(EventView::FetchFailed)) == fetch_tags(
                self.actions(EventView::FetchSucceeded(posts)),
            ),
            self.step(EventView::FetchFailed) == self.step(
                EventView::FetchSucceeded(Seq::empty()),
            ),
            self.actions(EventView::FetchFailed) == self.actions(
                EventView::FetchSucceeded(Seq::empty()),
            ),
    {
        self.lemma_actions_of_step(EventView::FetchFailed);
        self.lemma_actions_of_step(EventView::FetchSucceeded(posts));
        let none = Seq::<EntryView>::empty();
        assert(identifiers_of_all(none, self.config) =~= Seq::empty());
        assert(self.pins.submit(Seq::empty()).pending =~= self.pins.pending);
        assert(self.pins.submit(Seq::empty()) == self.pins);
    }

    /// A slot that frees is used at once: when a fetch ends, in success or
    /// in failure, while feeds wait, the feed that waited longest is the
    /// first one asked for; and so for pin requests and identifiers.
    pub proof fn lemma_freed_slot_goes_to_the_oldest(self, event: EventView)
        requires
            self.wf(),
            self.refusal(event).is_none(),
        ensures
            (event is FetchSucceeded || event is FetchFailed) && self.fetches.pending.len() > 0
                ==> fetch_tags(self.actions(event)).len() > 0 && fetch_tags(
                self.actions(event),
            )[0] == self.fetches.pending[0],
            (event is PinSucceeded || event is PinFailed) && self.pins.pending.len() > 0
                ==> pin_hashes(self.actions(event)).len() > 0 && pin_hashes(
                self.actions(event),
            )[0] == self.pins.pending[0],
    {
        self.lemma_actions_of_step(event);
        let after = self.absorb(event);
        if (event is FetchSucceeded || event is FetchFailed) && self.fetches.pending.len() > 0 {
            assert(after.fetches.ready() >= 1);
            assert(after.fetches.started()[0] == self.fetches.pending[0]);
        }
        if (event is PinSucceeded || event is PinFailed) && self.pins.pending.len() > 0 {
            assert(after.pins.ready() >= 1);
            assert(after.pins.started()[0] == self.pins.pending[0]);
        }
    }

    /// No slot idles while work waits: at every point of a run, a stage in
    /// which something waits has as many operations outstanding as its limit
    /// allows.
    pub proof fn lemma_work_waits_only_for_a_slot(config: ConfigView, events: Seq<EventView>)
        requires
            config.valid(),
        ensures
            ({
                let now = Self::initial(config).run(events);
                &&& now.fetches.pending.len() > 0 ==> now.fetches.in_flight
                    == config.concurrent_requests
                &&& now.pins.pending.len() > 0 ==> now.pins.in_flight == config.concurrent_pins
            }),
        decreases events.len(),
    {
        if events.len() > 0 {
            let earlier = events.drop_last();
            let before = Self::initial(config).run(earlier);
            Self::lemma_work_waits_only_for_a_slot(config, earlier);
            Self::lemma_limits_hold(config, earlier);
            if before.refusal(events.last()).is_none() {
                before.absorb(events.last()).fetches.lemma_start();
                before.absorb(events.last()).pins.lemma_start();
            }
        }
    }
}

} // verus!
