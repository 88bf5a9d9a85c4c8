use ina::threading::{CallStep, CallTracker, Static, StaticError, TrackedValue};

#[test]
fn static_holds_one_handle() {
    let mut slot: Static<u32> = Static::new();
    assert!(slot.is_uninitialized());
    assert_eq!(slot.try_get(), Err(StaticError::Uninitialized));
    assert_eq!(slot.initialize(1), Ok(()));
    assert!(slot.is_initialized());
    assert_eq!(slot.initialize(2), Err(StaticError::Initialized(2)));
    assert_eq!(slot.try_get(), Ok(&1));
    assert_eq!(slot.uninitialize(), Some(1));
    assert!(slot.is_uninitialized());
    assert_eq!(slot.uninitialize(), None);
    assert_eq!(slot.initialize(3), Ok(()));
    assert_eq!(slot.try_get(), Ok(&3));
}

#[test]
fn nonces_count_up() {
    let mut tracker: CallTracker<&str> = CallTracker::new();
    assert_eq!(tracker.next_nonce(), 0);
    assert_eq!(tracker.next_nonce(), 1);
    assert_eq!(tracker.next_nonce(), 2);
}

#[test]
fn answer_for_own_call_ends_it() {
    let mut tracker: CallTracker<&str> = CallTracker::new();
    let nonce = tracker.next_nonce();
    let step = tracker.receive(nonce, Some(TrackedValue { nonce: Some(nonce), value: "mine" }));
    assert_eq!(step, CallStep::Done("mine"));
    assert_eq!(tracker.take_completed(nonce), None);
}

#[test]
fn answer_for_other_call_is_kept() {
    let mut tracker: CallTracker<&str> = CallTracker::new();
    let first = tracker.next_nonce();
    let second = tracker.next_nonce();
    let step = tracker.receive(second, Some(TrackedValue { nonce: Some(first), value: "first" }));
    assert_eq!(step, CallStep::Wait);
    assert_eq!(tracker.take_completed(first), Some("first"));
    assert_eq!(tracker.take_completed(first), None);
}

#[test]
fn closed_channel_ends_call() {
    let mut tracker: CallTracker<u8> = CallTracker::new();
    assert_eq!(tracker.receive(0, None), CallStep::Closed);
}

#[test]
fn tracked_value_default() {
    let t: TrackedValue<u8> = TrackedValue::default();
    assert_eq!(t, TrackedValue { nonce: None, value: 0 });
}

#[test]
fn kept_answers_are_reported() {
    let mut tracker: CallTracker<u8> = CallTracker::new();
    assert!(!tracker.has_completed(4));
    assert_eq!(tracker.receive(0, Some(TrackedValue { nonce: Some(4), value: 9 })), CallStep::Wait);
    assert!(tracker.has_completed(4));
    assert_eq!(tracker.take_completed(4), Some(9));
    assert!(!tracker.has_completed(4));
}

#[test]
fn static_get_mut_changes_handle() {
    let mut slot: Static<u32> = Static::new();
    assert!(slot.try_get_mut().is_err());
    slot.initialize(1).unwrap();
    *slot.try_get_mut().unwrap() = 5;
    assert_eq!(slot.try_get(), Ok(&5));
}
