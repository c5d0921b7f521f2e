use screen_lock_status::signal::{
    SESSION_CHANGE_MESSAGE, SESSION_LOCK_REASON, SESSION_UNLOCK_REASON,
};
use screen_lock_status::{decode, Event, LockState, RawSignal};

#[test]
fn session_change_codes_have_their_platform_values() {
    assert_eq!(SESSION_CHANGE_MESSAGE, 0x02B1);
    assert_eq!(SESSION_CHANGE_MESSAGE, 689);
    assert_eq!(SESSION_LOCK_REASON, 7);
    assert_eq!(SESSION_UNLOCK_REASON, 8);
}

#[test]
fn bus_property_value_is_a_sample() {
    assert_eq!(decode(RawSignal::BusProperty(true)), Event::Sample(LockState::Locked));
    assert_eq!(decode(RawSignal::BusProperty(false)), Event::Sample(LockState::Unlocked));
}

#[test]
fn bus_stream_end_exhausts_the_source() {
    assert_eq!(decode(RawSignal::BusStreamEnded), Event::Exhausted);
}

#[test]
fn failed_bus_read_exhausts_the_source() {
    assert_eq!(decode(RawSignal::BusReadFailed), Event::Exhausted);
}

#[test]
fn missing_dictionary_says_nothing() {
    assert_eq!(decode(RawSignal::DictionaryUnavailable), Event::Quiet);
}

#[test]
fn dictionary_key_presence_is_a_sample() {
    assert_eq!(decode(RawSignal::DictionaryKey(true)), Event::Sample(LockState::Locked));
    assert_eq!(decode(RawSignal::DictionaryKey(false)), Event::Sample(LockState::Unlocked));
}

#[test]
fn session_lock_message_is_a_locked_sample() {
    let raw = RawSignal::WindowMessage { message: 0x02B1, reason: 7 };
    assert_eq!(decode(raw), Event::Sample(LockState::Locked));
}

#[test]
fn session_unlock_message_is_an_unlocked_sample() {
    let raw = RawSignal::WindowMessage { message: 0x02B1, reason: 8 };
    assert_eq!(decode(raw), Event::Sample(LockState::Unlocked));
}

#[test]
fn other_session_change_reasons_are_ignored() {
    for reason in [0u32, 1, 2, 3, 4, 5, 6, 9, 10, 11, 0x107, u32::MAX] {
        let raw = RawSignal::WindowMessage { message: SESSION_CHANGE_MESSAGE, reason };
        assert_eq!(decode(raw), Event::Quiet);
    }
}

#[test]
fn other_messages_are_ignored_whatever_they_carry() {
    for message in [0u32, 0x000F, 0x0010, 0x0012, 0x02B0, 0x02B2, 7, 8, u32::MAX] {
        for reason in [0u32, 7, 8, 689] {
            let raw = RawSignal::WindowMessage { message, reason };
            assert_eq!(decode(raw), Event::Quiet);
        }
    }
}

#[test]
fn message_loop_end_exhausts_the_source() {
    assert_eq!(decode(RawSignal::MessageLoopEnded), Event::Exhausted);
}
