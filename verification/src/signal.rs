//! What the platforms deliver, and what each delivery means to the watcher.
//!
//! Three sources exist: a boolean property of the session object on the
//! system bus, the presence of a key in the session dictionary, and
//! session-change messages sent to a hidden window.

use crate::state::LockState;
use vstd::prelude::*;

verus! {

/// The code of the window message that announces a change of the session.
pub const SESSION_CHANGE_MESSAGE: u32 = 0x02B1;

/// The sub-reason of a session-change message that says the session was locked.
pub const SESSION_LOCK_REASON: u32 = 0x7;

/// The sub-reason of a session-change message that says the session was unlocked.
pub const SESSION_UNLOCK_REASON: u32 = 0x8;

/// One delivery of a platform source, as plain values.
#[derive(Clone, Copy, Debug, PartialEq, Eq)]
pub enum RawSignal {
    /// The bus announced a change of the lock property, and this is the
    /// value read.
    BusProperty(bool),
    /// The bus announced a change, and the value could not be read.
    BusReadFailed,
    /// The bus property's change stream has ended.
    BusStreamEnded,
    /// One poll of the session dictionary: whether the lock-indicator key
    /// is present.
    DictionaryKey(bool),
    /// One poll for which the session dictionary could not be had.
    DictionaryUnavailable,
    /// A message retrieved from the window's queue: its code and the
    /// sub-reason that it carries.
    WindowMessage { message: u32, reason: u32 },
    /// The message queue reported that no further message will come.
    MessageLoopEnded,
}

/// What a delivery means to the watcher.
#[derive(Clone, Copy, Debug, PartialEq, Eq, Structural)]
pub enum Event {
    /// A raw sample of the lock state. It may repeat the one before it.
    Sample(LockState),
    /// A delivery that says nothing about the lock state.
    Quiet,
    /// The source has ended for good.
    Exhausted,
}

/// The meaning of each delivery. A value read from the bus and a poll of the
/// dictionary are samples, locked exactly when the flag is set, or the key
/// present. A window message is a sample only where it is a session change
/// with the lock or the unlock sub-reason. A poll that found no dictionary
/// says nothing, and the next poll may do better. A failed read from the
/// bus, the end of its stream and the end of the message queue exhaust the
/// source.
pub open spec fn meaning(raw: RawSignal) -> Event {
    match raw {
        RawSignal::BusProperty(locked) => Event::Sample(LockState::of_flag(locked)),
        RawSignal::BusReadFailed => Event::Exhausted,
        RawSignal::BusStreamEnded => Event::Exhausted,
        RawSignal::DictionaryKey(present) => Event::Sample(LockState::of_flag(present)),
        RawSignal::DictionaryUnavailable => Event::Quiet,
        RawSignal::WindowMessage { message, reason } => {
            if message == SESSION_CHANGE_MESSAGE && reason == SESSION_LOCK_REASON {
                Event::Sample(LockState::Locked)
            } else if message == SESSION_CHANGE_MESSAGE && reason == SESSION_UNLOCK_REASON {
                Event::Sample(LockState::Unlocked)
            } else {
                Event::Quiet
            }
        },
        RawSignal::MessageLoopEnded => Event::Exhausted,
    }
}

/// Turns one delivery into the event that the watcher acts on.
pub fn decode(raw: RawSignal) -> (event: Event)
    ensures
        event == meaning(raw),
{
    match raw {
        RawSignal::BusProperty(locked) => Event::Sample(LockState::from_flag(locked)),
        RawSignal::BusReadFailed | RawSignal::BusStreamEnded => Event::Exhausted,
        RawSignal::DictionaryKey(present) => Event::Sample(LockState::from_flag(present)),
        RawSignal::DictionaryUnavailable => Event::Quiet,
        RawSignal::WindowMessage { message, reason } => {
            if message != SESSION_CHANGE_MESSAGE {
                Event::Quiet
            } else if reason == SESSION_LOCK_REASON {
                Event::Sample(LockState::Locked)
            } else if reason == SESSION_UNLOCK_REASON {
                Event::Sample(LockState::Unlocked)
            } else {
                Event::Quiet
            }
        },
        RawSignal::MessageLoopEnded => Event::Exhausted,
    }
}

/// A window message is a sample exactly where it is a session change that
/// carries the lock or the unlock sub-reason; no other message is.
pub proof fn lemma_only_session_changes_are_samples(message: u32, reason: u32)
    ensures
        meaning(RawSignal::WindowMessage { message, reason }) is Sample <==> message
            == SESSION_CHANGE_MESSAGE && (reason == SESSION_LOCK_REASON || reason
            == SESSION_UNLOCK_REASON),
        meaning(RawSignal::WindowMessage { message, reason }) !is Exhausted,
{
}

} // verus!
