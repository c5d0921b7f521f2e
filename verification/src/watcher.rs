//! The watcher's decisions: from its state and one event to its next state
//! and the action that the driver carries out.
//!
//! The driver owns the platform source and the sink. It obtains a delivery,
//! decodes it, asks the watcher what to do, does it, and pauses. The watcher
//! itself performs nothing.

use crate::filter::{changes, detect, held_after, StateChangeFilter};
use crate::signal::Event;
use crate::state::{Change, LockState, Transition};
use vstd::prelude::*;

verus! {

/// The pause between two samples, in milliseconds, where none is chosen.
pub const DEFAULT_INTERVAL_MS: u64 = 1000;

/// Whether the watcher still works. `Stopped` is final.
#[derive(Clone, Copy, Debug, PartialEq, Eq, Structural)]
pub enum WatcherState {
    Running,
    Stopped,
}

/// What the driver does after an event.
#[derive(Clone, Copy, Debug, PartialEq, Eq)]
pub enum Action {
    /// Hand the transition to the sink, whatever the sink answers, then
    /// pause and go on.
    Emit(Transition),
    /// Nothing to deliver: pause and go on.
    Idle,
    /// End the loop. Nothing is delivered, now or later.
    Halt,
}

/// The model of an [`Action`].
pub ghost enum Decision {
    Emit(Change),
    Idle,
    Halt,
}

impl View for Action {
    type V = Decision;

    open spec fn view(&self) -> Decision {
        match self {
            Action::Emit(transition) => Decision::Emit(transition@),
            Action::Idle => Decision::Idle,
            Action::Halt => Decision::Halt,
        }
    }
}

/// The model of a [`Watcher`].
pub ghost struct WatcherView {
    /// The last sample that the watcher took in.
    pub last: LockState,
    pub state: WatcherState,
    pub interval_ms: u64,
}

/// What a watcher in `watcher` does about `event`, given whether a sink is
/// registered at that moment. A stopped watcher halts. A running one halts
/// when the source is exhausted, and when a sample is a change and no sink is
/// there to take it; it emits a change where a sink is registered; and it
/// idles on anything else.
pub open spec fn decide(watcher: WatcherView, event: Event, sink_registered: bool) -> Decision {
    match (watcher.state, event) {
        (WatcherState::Stopped, _) => Decision::Halt,
        (WatcherState::Running, Event::Exhausted) => Decision::Halt,
        (WatcherState::Running, Event::Quiet) => Decision::Idle,
        (WatcherState::Running, Event::Sample(sample)) => match detect(watcher.last, sample) {
            None => Decision::Idle,
            Some(change) => if sink_registered {
                Decision::Emit(change)
            } else {
                Decision::Halt
            },
        },
    }
}

/// The watcher after `event`. A stopped watcher stays as it is. A running one
/// takes every sample in as its last value, and is stopped exactly where
/// [`decide`] says to halt.
pub open spec fn advance(watcher: WatcherView, event: Event, sink_registered: bool) -> WatcherView {
    let state = if decide(watcher, event, sink_registered) is Halt {
        WatcherState::Stopped
    } else {
        WatcherState::Running
    };
    let last = match (watcher.state, event) {
        (WatcherState::Running, Event::Sample(sample)) => sample,
        _ => watcher.last,
    };
    WatcherView { last, state, interval_ms: watcher.interval_ms }
}

/// The watcher after `events`, taken in order, with the sink's registration
/// the same throughout.
pub open spec fn course(watcher: WatcherView, events: Seq<Event>, sink_registered: bool) -> WatcherView
    decreases events.len(),
{
    if events.len() == 0 {
        watcher
    } else {
        advance(course(watcher, events.drop_last(), sink_registered), events.last(), sink_registered)
    }
}

/// The changes that the watcher has the driver emit over `events`, oldest
/// first.
pub open spec fn emissions(watcher: WatcherView, events: Seq<Event>, sink_registered: bool) -> Seq<
    Change,
>
    decreases events.len(),
{
    if events.len() == 0 {
        Seq::empty()
    } else {
        let earlier = emissions(watcher, events.drop_last(), sink_registered);
        let reached = course(watcher, events.drop_last(), sink_registered);
        match decide(reached, events.last(), sink_registered) {
            Decision::Emit(change) => earlier.push(change),
            _ => earlier,
        }
    }
}

/// How long the driver pauses after carrying out `decision`, in
/// milliseconds: the watcher's interval, and not at all once it halts.
pub open spec fn pause(watcher: WatcherView, decision: Decision) -> Option<u64> {
    if decision is Halt {
        None
    } else {
        Some(watcher.interval_ms)
    }
}

/// The samples among `events`, in order.
pub open spec fn samples_in(events: Seq<Event>) -> Seq<LockState>
    decreases events.len(),
{
    if events.len() == 0 {
        Seq::empty()
    } else {
        match events.last() {
            Event::Sample(sample) => samples_in(events.drop_last()).push(sample),
            _ => samples_in(events.drop_last()),
        }
    }
}

/// The decisions of the background task that reports lock changes.
#[derive(Debug)]
pub struct Watcher {
    filter: StateChangeFilter,
    state: WatcherState,
    interval_ms: u64,
}

impl View for Watcher {
    type V = WatcherView;

    closed spec fn view(&self) -> WatcherView {
        WatcherView { last: self.filter@, state: self.state, interval_ms: self.interval_ms }
    }
}

impl Default for Watcher {
    fn default() -> (watcher: Watcher)
        ensures
            watcher@ == (WatcherView {
                last: LockState::Unlocked,
                state: WatcherState::Running,
                interval_ms: DEFAULT_INTERVAL_MS,
            }),
    {
        Watcher::new()
    }
}

impl Watcher {
    /// A running watcher that assumes an unlocked session and pauses for
    /// the default interval.
    pub fn new() -> (watcher: Watcher)
        ensures
            watcher@ == (WatcherView {
                last: LockState::Unlocked,
                state: WatcherState::Running,
                interval_ms: DEFAULT_INTERVAL_MS,
            }),
    {
        Watcher::with_interval(DEFAULT_INTERVAL_MS)
    }

    /// A running watcher that assumes an unlocked session and pauses for
    /// `interval_ms` milliseconds.
    pub fn with_interval(interval_ms: u64) -> (watcher: Watcher)
        ensures
            watcher@ == (WatcherView {
                last: LockState::Unlocked,
                state: WatcherState::Running,
                interval_ms,
            }),
    {
        Watcher { filter: StateChangeFilter::new(), state: WatcherState::Running, interval_ms }
    }

    /// Running or stopped.
    pub fn state(&self) -> (state: WatcherState)
        ensures
            state == self@.state,
    {
        self.state
    }

    /// Whether the watcher still takes events.
    pub fn is_running(&self) -> (running: bool)
        ensures
            running == (self@.state == WatcherState::Running),
    {
        match self.state {
            WatcherState::Running => true,
            WatcherState::Stopped => false,
        }
    }

    /// The last sample taken in, or `Unlocked` before the first.
    pub fn last(&self) -> (state: LockState)
        ensures
            state == self@.last,
    {
        self.filter.last()
    }

    /// The pause after each action but `Halt`, in milliseconds.
    pub fn interval_ms(&self) -> (interval: u64)
        ensures
            interval == self@.interval_ms,
    {
        self.interval_ms
    }

    /// How long to pause once `action` is carried out: the interval after
    /// `Emit` and `Idle`, and `None` after `Halt`, which ends the loop.
    pub fn pause_after(&self, action: &Action) -> (millis: Option<u64>)
        ensures
            millis == pause(self@, action@),
    {
        match action {
            Action::Halt => None,
            _ => Some(self.interval_ms),
        }
    }

    /// Takes one event and says what the driver is to do. `sink_registered`
    /// tells whether a sink is registered at this moment.
    pub fn step(&mut self, event: Event, sink_registered: bool) -> (action: Action)
        ensures
            final(self)@ == advance(old(self)@, event, sink_registered),
            action@ == decide(old(self)@, event, sink_registered),
    {
        match self.state {
            WatcherState::Stopped => Action::Halt,
            WatcherState::Running => match event {
                Event::Exhausted => {
                    self.state = WatcherState::Stopped;
                    Action::Halt
                },
                Event::Quiet => Action::Idle,
                Event::Sample(sample) => match self.filter.observe(sample) {
                    None => Action::Idle,
                    Some(transition) => {
                        if sink_registered {
                            Action::Emit(transition)
                        } else {
                            self.state = WatcherState::Stopped;
                            Action::Halt
                        }
                    },
                },
            },
        }
    }

    /// Takes a batch of events in order, with the sink's registration the
    /// same for all of them, and returns the transitions to emit, oldest
    /// first. The batch is read up to the event at which the watcher halts;
    /// a stopped watcher reads nothing.
    pub fn run(&mut self, events: &[Event], sink_registered: bool) -> (emitted: Vec<Transition>)
        ensures
            final(self)@ == course(old(self)@, events@, sink_registered),
            emitted.deep_view() == emissions(old(self)@, events@, sink_registered),
    {
        let ghost start = self@;
        let mut emitted: Vec<Transition> = Vec::new();
        let mut i: usize = 0;
        while i < events.len()
            invariant
                i <= events.len(),
                start == old(self)@,
                self@ == course(start, events@.take(i as int), sink_registered),
                emitted.deep_view() == emissions(start, events@.take(i as int), sink_registered),
            decreases events.len() - i,
        {
            proof {
                assert(events@.take(i as int + 1).drop_last() == events@.take(i as int));
            }
            match self.step(events[i], sink_registered) {
                Action::Emit(transition) => {
                    emitted.push(transition);
                },
                Action::Idle => {},
                Action::Halt => {
                    proof {
                        let read = events@.take(i as int + 1);
                        let rest = events@.skip(i as int + 1);
                        assert(events@ == read + rest);
                        lemma_course_concat(start, read, rest, sink_registered);
                        lemma_stopped_is_final(self@, rest, sink_registered);
                    }
                    return emitted;
                },
            }
            i += 1;
        }
        proof {
            assert(events@.take(i as int) == events@);
        }
        emitted
    }
}

/// Taking `first` and then `second` leads where taking `second` leads from
/// the watcher that `first` left, and emits what `first` emits followed by
/// what `second` emits from there.
pub proof fn lemma_course_concat(
    watcher: WatcherView,
    first: Seq<Event>,
    second: Seq<Event>,
    sink_registered: bool,
)
    ensures
        course(watcher, first + second, sink_registered) == course(
            course(watcher, first, sink_registered),
            second,
            sink_registered,
        ),
        emissions(watcher, first + second, sink_registered) == emissions(
            watcher,
            first,
            sink_registered,
        ) + emissions(course(watcher, first, sink_registered), second, sink_registered),
    decreases second.len(),
{
    if second.len() > 0 {
        assert((first + second).drop_last() == first + second.drop_last());
        lemma_course_concat(watcher, first, second.drop_last(), sink_registered);
    }
}

/// A stopped watcher stays stopped and as it is, and emits nothing,
/// whatever arrives and whether or not a sink is registered by then.
pub proof fn lemma_stopped_is_final(watcher: WatcherView, events: Seq<Event>, sink_registered: bool)
    requires
        watcher.state == WatcherState::Stopped,
    ensures
        course(watcher, events, sink_registered) == watcher,
        emissions(watcher, events, sink_registered) == Seq::<Change>::empty(),
    decreases events.len(),
{
    if events.len() > 0 {
        lemma_stopped_is_final(watcher, events.drop_last(), sink_registered);
    }
}

/// Without a sink nothing is ever emitted.
pub proof fn lemma_no_sink_emits_nothing(watcher: WatcherView, events: Seq<Event>)
    ensures
        emissions(watcher, events, false) == Seq::<Change>::empty(),
    decreases events.len(),
{
    if events.len() > 0 {
        lemma_no_sink_emits_nothing(watcher, events.drop_last());
    }
}

/// A change that finds no sink ends the watch: the watcher halts at that
/// sample, and nothing that arrives later is emitted, even with a sink
/// registered by then.
pub proof fn lemma_unclaimed_change_ends_watch(
    watcher: WatcherView,
    sample: LockState,
    later: Seq<Event>,
    sink_later: bool,
)
    requires
        watcher.state == WatcherState::Running,
        sample != watcher.last,
    ensures
        decide(watcher, Event::Sample(sample), false) is Halt,
        course(advance(watcher, Event::Sample(sample), false), later, sink_later).state
            == WatcherState::Stopped,
        emissions(advance(watcher, Event::Sample(sample), false), later, sink_later) == Seq::<
            Change,
        >::empty(),
{
    lemma_stopped_is_final(advance(watcher, Event::Sample(sample), false), later, sink_later);
}

/// As long as the watcher is running, nothing was lost: it holds the newest
/// sample, with a sink it has emitted every change among the samples so
/// far, in order, and without a sink there was no change yet.
pub proof fn lemma_running_has_relayed_all(
    watcher: WatcherView,
    events: Seq<Event>,
    sink_registered: bool,
)
    requires
        course(watcher, events, sink_registered).state == WatcherState::Running,
    ensures
        watcher.state == WatcherState::Running,
        course(watcher, events, sink_registered).last == held_after(
            watcher.last,
            samples_in(events),
        ),
        sink_registered ==> emissions(watcher, events, sink_registered) == changes(
            watcher.last,
            samples_in(events),
        ),
        !sink_registered ==> changes(watcher.last, samples_in(events)) == Seq::<Change>::empty(),
    decreases events.len(),
{
    if events.len() > 0 {
        let earlier = events.drop_last();
        lemma_running_has_relayed_all(watcher, earlier, sink_registered);
        match events.last() {
            Event::Sample(sample) => {
                assert(samples_in(earlier).push(sample).drop_last() == samples_in(earlier));
            },
            _ => {},
        }
    }
}

/// With a sink registered and a source that does not end, a running watcher
/// keeps running and emits exactly the changes among the samples, in order.
pub proof fn lemma_sink_relays_changes(watcher: WatcherView, events: Seq<Event>)
    requires
        watcher.state == WatcherState::Running,
        forall|i: int| 0 <= i < events.len() ==> events[i] !is Exhausted,
    ensures
        course(watcher, events, true).state == WatcherState::Running,
        course(watcher, events, true).last == held_after(watcher.last, samples_in(events)),
        emissions(watcher, events, true) == changes(watcher.last, samples_in(events)),
    decreases events.len(),
{
    if events.len() > 0 {
        lemma_sink_relays_changes(watcher, events.drop_last());
    }
    lemma_running_has_relayed_all(watcher, events, true);
}

/// Whatever happens, what the watcher emits is a leading part of the changes
/// among the samples: it never invents a change and never reorders two.
pub proof fn lemma_emissions_lead_changes(
    watcher: WatcherView,
    events: Seq<Event>,
    sink_registered: bool,
)
    ensures
        emissions(watcher, events, sink_registered).is_prefix_of(
            changes(watcher.last, samples_in(events)),
        ),
    decreases events.len(),
{
    if events.len() > 0 {
        let earlier = events.drop_last();
        let reached = course(watcher, earlier, sink_registered);
        lemma_emissions_lead_changes(watcher, earlier, sink_registered);
        match events.last() {
            Event::Sample(sample) => {
                assert(samples_in(earlier).push(sample).drop_last() == samples_in(earlier));
            },
            _ => {},
        }
        if reached.state == WatcherState::Running {
            lemma_running_has_relayed_all(watcher, earlier, sink_registered);
        }
    }
}

} // verus!
