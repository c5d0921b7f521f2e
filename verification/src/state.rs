//! The lock state of the interactive session and the changes between its two values.

use vstd::prelude::*;

verus! {

/// Whether the session is locked. There is no third value: where nothing is
/// known yet, the session counts as unlocked.
#[derive(Clone, Copy, Debug, PartialEq, Eq, Structural)]
pub enum LockState {
    Locked,
    Unlocked,
}

impl Default for LockState {
    /// The state assumed before the first sample.
    fn default() -> (state: LockState)
        ensures
            state == LockState::Unlocked,
    {
        LockState::Unlocked
    }
}

impl LockState {
    /// The state that a lock flag stands for: `Locked` exactly when the flag is set.
    pub open spec fn of_flag(locked: bool) -> LockState {
        if locked {
            LockState::Locked
        } else {
            LockState::Unlocked
        }
    }

    /// Reads a platform's lock flag.
    pub fn from_flag(locked: bool) -> (state: LockState)
        ensures
            state == LockState::of_flag(locked),
    {
        if locked {
            LockState::Locked
        } else {
            LockState::Unlocked
        }
    }

    /// True exactly for `Locked`.
    pub fn is_locked(&self) -> (locked: bool)
        ensures
            locked == (*self == LockState::Locked),
            LockState::of_flag(locked) == *self,
    {
        match self {
            LockState::Locked => true,
            LockState::Unlocked => false,
        }
    }
}

/// The model of a [`Transition`]: the state left and the state entered.
pub ghost struct Change {
    pub previous: LockState,
    pub next: LockState,
}

/// A change of the lock state from `previous` to `next`. The two always differ.
#[derive(Clone, Copy, Debug, PartialEq, Eq, Structural)]
pub struct Transition {
    previous: LockState,
    next: LockState,
}

impl View for Transition {
    type V = Change;

    closed spec fn view(&self) -> Change {
        Change { previous: self.previous, next: self.next }
    }
}

impl DeepView for Transition {
    type V = Change;

    open spec fn deep_view(&self) -> Change {
        self@
    }
}

impl Transition {
    #[verifier::type_invariant]
    spec fn differs(self) -> bool {
        self.previous != self.next
    }

    /// The transition from `previous` to `next`, where the two differ.
    pub fn new(previous: LockState, next: LockState) -> (transition: Option<Transition>)
        ensures
            previous == next ==> transition is None,
            previous != next ==> (transition matches Some(t) && t@ == (Change { previous, next })),
    {
        if previous == next {
            None
        } else {
            Some(Transition { previous, next })
        }
    }

    /// The state that was left.
    pub fn previous(&self) -> (state: LockState)
        ensures
            state == self@.previous,
            state != self@.next,
    {
        proof {
            use_type_invariant(self);
        }
        self.previous
    }

    /// The state that was entered.
    pub fn next(&self) -> (state: LockState)
        ensures
            state == self@.next,
            state != self@.previous,
    {
        proof {
            use_type_invariant(self);
        }
        self.next
    }
}

} // verus!
