use screen_lock_status::LockState::{Locked, Unlocked};
use screen_lock_status::{LockState, StateChangeFilter, Transition};

fn pairs(found: &[Transition]) -> Vec<(LockState, LockState)> {
    found.iter().map(|t| (t.previous(), t.next())).collect()
}

fn count_runs(values: &[LockState]) -> usize {
    let mut runs = 0;
    for i in 0..values.len() {
        if i == 0 || values[i] != values[i - 1] {
            runs += 1;
        }
    }
    runs
}

fn all_sequences(len: usize) -> Vec<Vec<LockState>> {
    let mut out = Vec::new();
    for bits in 0..(1u32 << len) {
        let mut seq = Vec::new();
        for i in 0..len {
            seq.push(if bits & (1 << i) != 0 { Locked } else { Unlocked });
        }
        out.push(seq);
    }
    out
}

#[test]
fn new_filter_holds_unlocked() {
    assert_eq!(StateChangeFilter::new().last(), Unlocked);
    assert_eq!(StateChangeFilter::default().last(), Unlocked);
    assert_eq!(StateChangeFilter::default(), StateChangeFilter::new());
}

#[test]
fn first_sample_unlocked_is_no_transition() {
    let mut filter = StateChangeFilter::new();
    assert_eq!(filter.observe(Unlocked), None);
    assert_eq!(filter.last(), Unlocked);
}

#[test]
fn first_sample_locked_is_one_transition() {
    let mut filter = StateChangeFilter::new();
    let found = filter.observe(Locked).expect("a change from the assumed state");
    assert_eq!((found.previous(), found.next()), (Unlocked, Locked));
    assert_eq!(filter.last(), Locked);
    assert_eq!(filter.observe(Locked), None);
}

#[test]
fn same_sample_twice_gives_no_second_transition() {
    for start in [Locked, Unlocked] {
        for sample in [Locked, Unlocked] {
            let mut filter = StateChangeFilter::new();
            filter.observe(start);
            let first = filter.observe(sample);
            assert_eq!(first.is_some(), start != sample);
            assert_eq!(filter.observe(sample), None);
            assert_eq!(filter.observe(sample), None);
            assert_eq!(filter.last(), sample);
        }
    }
}

#[test]
fn observe_reports_old_and_new_value() {
    let mut filter = StateChangeFilter::new();
    filter.observe(Locked);
    let back = filter.observe(Unlocked).unwrap();
    assert_eq!(back, Transition::new(Locked, Unlocked).unwrap());
    let again = filter.observe(Locked).unwrap();
    assert_eq!(again, Transition::new(Unlocked, Locked).unwrap());
}

#[test]
fn five_samples_give_two_transitions_in_order() {
    let mut filter = StateChangeFilter::new();
    let found = filter.observe_all(&[Unlocked, Unlocked, Locked, Locked, Unlocked]);
    assert_eq!(pairs(&found), vec![(Unlocked, Locked), (Locked, Unlocked)]);
    assert_eq!(filter.last(), Unlocked);
}

#[test]
fn five_samples_one_by_one_give_the_same() {
    let mut filter = StateChangeFilter::new();
    let mut found = Vec::new();
    for sample in [Unlocked, Unlocked, Locked, Locked, Unlocked] {
        if let Some(t) = filter.observe(sample) {
            found.push(t);
        }
    }
    assert_eq!(pairs(&found), vec![(Unlocked, Locked), (Locked, Unlocked)]);
}

#[test]
fn empty_run_reports_nothing_and_keeps_state() {
    let mut filter = StateChangeFilter::new();
    filter.observe(Locked);
    assert!(filter.observe_all(&[]).is_empty());
    assert_eq!(filter.last(), Locked);
}

#[test]
fn constant_sequence_reports_nothing() {
    let mut filter = StateChangeFilter::new();
    assert!(filter.observe_all(&[Unlocked; 17]).is_empty());
    assert_eq!(filter.last(), Unlocked);
    filter.observe(Locked);
    assert!(filter.observe_all(&[Locked; 9]).is_empty());
    assert_eq!(filter.last(), Locked);
}

#[test]
fn constant_locked_sequence_on_new_filter_reports_the_first_change_only() {
    let mut filter = StateChangeFilter::new();
    let found = filter.observe_all(&[Locked, Locked, Locked]);
    assert_eq!(pairs(&found), vec![(Unlocked, Locked)]);
}

#[test]
fn transition_count_is_runs_minus_one_with_held_value_in_front() {
    for len in 0..=8 {
        for samples in all_sequences(len) {
            for start in [Locked, Unlocked] {
                let mut filter = StateChangeFilter::new();
                filter.observe(start);
                let found = filter.observe_all(&samples);
                let mut whole = vec![start];
                whole.extend_from_slice(&samples);
                assert_eq!(found.len() + 1, count_runs(&whole));
            }
        }
    }
}

#[test]
fn transition_count_is_runs_minus_one_when_first_sample_is_held() {
    for len in 1..=8 {
        for samples in all_sequences(len) {
            let mut filter = StateChangeFilter::new();
            filter.observe(samples[0]);
            let found = filter.observe_all(&samples);
            assert_eq!(found.len(), count_runs(&samples) - 1);
        }
    }
    let mut filter = StateChangeFilter::new();
    let found = filter.observe_all(&[Unlocked, Locked, Locked, Unlocked, Locked]);
    assert_eq!(found.len(), 3);
}

#[test]
fn transitions_form_a_chain() {
    for samples in all_sequences(7) {
        let mut filter = StateChangeFilter::new();
        let found = pairs(&filter.observe_all(&samples));
        let mut at = Unlocked;
        for (previous, next) in found {
            assert_eq!(previous, at);
            assert_ne!(previous, next);
            at = next;
        }
        assert_eq!(at, *samples.last().unwrap());
        assert_eq!(filter.last(), at);
    }
}

#[test]
fn batch_equals_feeding_one_by_one() {
    for samples in all_sequences(6) {
        let mut batch = StateChangeFilter::new();
        let mut single = StateChangeFilter::new();
        let found = batch.observe_all(&samples);
        let mut expected = Vec::new();
        for sample in &samples {
            if let Some(t) = single.observe(*sample) {
                expected.push(t);
            }
        }
        assert_eq!(found, expected);
        assert_eq!(batch, single);
    }
}

#[test]
fn splitting_a_run_changes_nothing() {
    for samples in all_sequences(6) {
        for cut in 0..=samples.len() {
            let mut whole = StateChangeFilter::new();
            let mut parts = StateChangeFilter::new();
            let expected = whole.observe_all(&samples);
            let mut found = parts.observe_all(&samples[..cut]);
            found.extend(parts.observe_all(&samples[cut..]));
            assert_eq!(found, expected);
            assert_eq!(parts.last(), whole.last());
        }
    }
}

#[test]
fn repeating_the_held_sample_changes_nothing() {
    for samples in all_sequences(5) {
        let mut plain = StateChangeFilter::new();
        let expected = plain.observe_all(&samples);
        for at in 0..=samples.len() {
            let held = if at == 0 { Unlocked } else { samples[at - 1] };
            let mut doubled = samples.clone();
            doubled.insert(at, held);
            let mut filter = StateChangeFilter::new();
            assert_eq!(filter.observe_all(&doubled), expected);
            assert_eq!(filter.last(), plain.last());
        }
    }
}
