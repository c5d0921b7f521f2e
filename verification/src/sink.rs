//! What is handed to the event sink for a change of the lock state: one fixed
//! topic, and a payload that names the state entered.

use crate::state::{LockState, Transition};
use vstd::prelude::*;

verus! {

/// The text of the topic of every event.
pub open spec fn topic_text() -> Seq<char> {
    "window_screen_lock_status://change_session_status"@
}

/// The text of the payload that announces `entered`.
pub open spec fn payload_text(entered: LockState) -> Seq<char> {
    match entered {
        LockState::Locked => "lock"@,
        LockState::Unlocked => "unlock"@,
    }
}

/// The topic under which every change is emitted.
pub fn topic() -> (text: &'static str)
    ensures
        text@ == topic_text(),
{
    "window_screen_lock_status://change_session_status"
}

/// The payload that announces that the session entered `entered`.
pub fn payload(entered: LockState) -> (text: &'static str)
    ensures
        text@ == payload_text(entered),
{
    match entered {
        LockState::Locked => "lock",
        LockState::Unlocked => "unlock",
    }
}

/// The payload for a transition: that of the state it enters.
pub fn payload_of(transition: &Transition) -> (text: &'static str)
    ensures
        text@ == payload_text(transition@.next),
{
    payload(transition.next())
}

/// The two payloads differ, so a payload tells which state was entered.
pub proof fn lemma_payload_names_state(a: LockState, b: LockState)
    ensures
        payload_text(a) == payload_text(b) <==> a == b,
{
    reveal_strlit("lock");
    reveal_strlit("unlock");
    if a != b {
        assert(payload_text(a).len() != payload_text(b).len());
    }
}

} // verus!
