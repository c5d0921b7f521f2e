use screen_lock_status::{payload, payload_of, topic, LockState, Transition};

#[test]
fn topic_is_the_fixed_literal() {
    assert_eq!(topic(), "window_screen_lock_status://change_session_status");
}

#[test]
fn payload_names_the_state_entered() {
    assert_eq!(payload(LockState::Locked), "lock");
    assert_eq!(payload(LockState::Unlocked), "unlock");
}

#[test]
fn payload_of_a_transition_is_that_of_its_next_state() {
    let lock = Transition::new(LockState::Unlocked, LockState::Locked).unwrap();
    let unlock = Transition::new(LockState::Locked, LockState::Unlocked).unwrap();
    assert_eq!(payload_of(&lock), "lock");
    assert_eq!(payload_of(&unlock), "unlock");
    assert_ne!(payload_of(&lock), payload_of(&unlock));
}
