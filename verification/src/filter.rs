//! Deduplication of raw lock samples: only a sample that differs from the
//! last one is a change.

use crate::state::{Change, LockState, Transition};
use vstd::prelude::*;

verus! {

/// What a filter that holds `last` makes of `sample`: nothing where the two
/// are equal, else the change from `last` to `sample`.
pub open spec fn detect(last: LockState, sample: LockState) -> Option<Change> {
    if sample == last {
        None
    } else {
        Some(Change { previous: last, next: sample })
    }
}

/// The state held after `samples` were fed to a filter that held `last`:
/// the newest sample, or `last` where there was none.
pub open spec fn held_after(last: LockState, samples: Seq<LockState>) -> LockState {
    if samples.len() == 0 {
        last
    } else {
        samples.last()
    }
}

/// The changes that a filter holding `last` reports when it is fed `samples`
/// in order: one for each sample that differs from the value before it, where
/// the value before the first sample is `last`.
pub open spec fn changes(last: LockState, samples: Seq<LockState>) -> Seq<Change>
    decreases samples.len(),
{
    if samples.len() == 0 {
        Seq::empty()
    } else {
        let earlier = samples.drop_last();
        match detect(held_after(last, earlier), samples.last()) {
            Some(change) => changes(last, earlier).push(change),
            None => changes(last, earlier),
        }
    }
}

/// The number of maximal runs of equal consecutive values in `values`.
pub open spec fn runs(values: Seq<LockState>) -> nat
    decreases values.len(),
{
    if values.len() == 0 {
        0
    } else if values.len() == 1 {
        1
    } else if values.last() == values.drop_last().last() {
        runs(values.drop_last())
    } else {
        runs(values.drop_last()) + 1
    }
}

/// Remembers the last sample seen and reports only real changes.
#[derive(Clone, Copy, Debug, PartialEq, Eq, Structural)]
pub struct StateChangeFilter {
    last: LockState,
}

impl View for StateChangeFilter {
    type V = LockState;

    closed spec fn view(&self) -> LockState {
        self.last
    }
}

impl Default for StateChangeFilter {
    fn default() -> (filter: StateChangeFilter)
        ensures
            filter@ == LockState::Unlocked,
    {
        StateChangeFilter::new()
    }
}

impl StateChangeFilter {
    /// A filter at startup: the session is assumed to be unlocked.
    pub fn new() -> (filter: StateChangeFilter)
        ensures
            filter@ == LockState::Unlocked,
    {
        StateChangeFilter { last: LockState::Unlocked }
    }

    /// The last sample seen, or `Unlocked` before the first.
    pub fn last(&self) -> (state: LockState)
        ensures
            state == self@,
    {
        self.last
    }

    /// Takes one raw sample. A sample equal to the last one is swallowed;
    /// any other becomes the new last value and is reported as the
    /// transition from the old value to it.
    pub fn observe(&mut self, sample: LockState) -> (change: Option<Transition>)
        ensures
            final(self)@ == sample,
            change.deep_view() == detect(old(self)@, sample),
    {
        let found = Transition::new(self.last, sample);
        self.last = sample;
        found
    }

    /// Takes a run of raw samples in order and returns the transitions among
    /// them, oldest first.
    pub fn observe_all(&mut self, samples: &[LockState]) -> (found: Vec<Transition>)
        ensures
            final(self)@ == held_after(old(self)@, samples@),
            found.deep_view() == changes(old(self)@, samples@),
    {
        let ghost start = self@;
        let mut found: Vec<Transition> = Vec::new();
        let mut i: usize = 0;
        while i < samples.len()
            invariant
                i <= samples.len(),
                self@ == held_after(start, samples@.take(i as int)),
                found.deep_view() == changes(start, samples@.take(i as int)),
            decreases samples.len() - i,
        {
            proof {
                assert(samples@.take(i as int + 1).drop_last() == samples@.take(i as int));
            }
            if let Some(transition) = self.observe(samples[i]) {
                found.push(transition);
            }
            i += 1;
        }
        proof {
            assert(samples@.take(i as int) == samples@);
        }
        found
    }
}

/// Feeding `first` and then `second` reports the changes of `first` followed
/// by those of `second`, the latter taken from the state in which `first`
/// left the filter.
pub proof fn lemma_changes_concat(last: LockState, first: Seq<LockState>, second: Seq<LockState>)
    ensures
        held_after(last, first + second) == held_after(held_after(last, first), second),
        changes(last, first + second) == changes(last, first) + changes(
            held_after(last, first),
            second,
        ),
    decreases second.len(),
{
    if second.len() > 0 {
        assert((first + second).drop_last() == first + second.drop_last());
        lemma_changes_concat(last, first, second.drop_last());
    }
}

/// The changes reported for `samples` number one less than the runs of equal
/// values in the sequence that starts with the held value and goes on with
/// `samples`.
pub proof fn lemma_changes_count(last: LockState, samples: Seq<LockState>)
    ensures
        changes(last, samples).len() + 1 == runs(seq![last] + samples),
    decreases samples.len(),
{
    if samples.len() > 0 {
        assert((seq![last] + samples).drop_last() == seq![last] + samples.drop_last());
        lemma_changes_count(last, samples.drop_last());
    }
}

/// Where the first sample is the value that the filter holds already, the
/// changes reported number one less than the runs of equal values in
/// `samples` itself.
pub proof fn lemma_changes_count_within(last: LockState, samples: Seq<LockState>)
    requires
        samples.len() > 0,
        samples[0] == last,
    ensures
        changes(last, samples).len() == runs(samples) - 1,
    decreases samples.len(),
{
    let earlier = samples.drop_last();
    if samples.len() == 1 {
        assert(changes(last, earlier).len() == 0);
    } else {
        lemma_changes_count_within(last, earlier);
    }
}

/// A sequence that only repeats the held value reports nothing and leaves
/// the held value as it was.
pub proof fn lemma_constant_is_silent(last: LockState, samples: Seq<LockState>)
    requires
        forall|i: int| 0 <= i < samples.len() ==> samples[i] == last,
    ensures
        changes(last, samples) == Seq::<Change>::empty(),
        held_after(last, samples) == last,
    decreases samples.len(),
{
    if samples.len() > 0 {
        lemma_constant_is_silent(last, samples.drop_last());
    }
}

/// The same sample fed twice in a row reports nothing the second time.
pub proof fn lemma_repeat_is_silent(last: LockState, sample: LockState)
    ensures
        detect(held_after(last, seq![sample]), sample) is None,
        changes(last, seq![sample, sample]) == changes(last, seq![sample]),
{
    assert(seq![sample, sample].drop_last() == seq![sample]);
}

/// Feeding once more, at any point of `samples`, the value that the filter
/// holds at that point changes neither what is reported nor the value held
/// in the end.
pub proof fn lemma_held_sample_is_idle(last: LockState, samples: Seq<LockState>, at: int)
    requires
        0 <= at <= samples.len(),
    ensures
        changes(last, samples.insert(at, held_after(last, samples.take(at)))) == changes(
            last,
            samples,
        ),
        held_after(last, samples.insert(at, held_after(last, samples.take(at)))) == held_after(
            last,
            samples,
        ),
{
    let before = samples.take(at);
    let after = samples.skip(at);
    let held = held_after(last, before);
    let again = before.push(held);
    assert(samples == before + after);
    assert(again.drop_last() == before);
    lemma_changes_concat(last, before, after);
    lemma_changes_concat(last, again, after);
}

/// Whether `found` is a chain of real changes that leads from `from` to
/// `to`: each change leaves one state for the other, the first leaves `from`,
/// each later one leaves the state that the one before it entered, and the
/// newest enters `to`. An empty chain leads from a state to itself.
pub open spec fn links(from: LockState, found: Seq<Change>, to: LockState) -> bool {
    &&& forall|k: int| 0 <= k < found.len() ==> (#[trigger] found[k]).previous != found[k].next
    &&& forall|k: int|
        0 <= k < found.len() - 1 ==> found[k].next == (#[trigger] found[k + 1]).previous
    &&& found.len() > 0 ==> found[0].previous == from && found.last().next == to
    &&& found.len() == 0 ==> from == to
}

/// The changes reported for `samples` are a chain of real changes from the
/// held value to the value held in the end.
pub proof fn lemma_changes_chain(last: LockState, samples: Seq<LockState>)
    ensures
        links(last, changes(last, samples), held_after(last, samples)),
    decreases samples.len(),
{
    if samples.len() > 0 {
        lemma_changes_chain(last, samples.drop_last());
    }
}

} // verus!
