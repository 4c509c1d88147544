use cc_wasm_api::coroutine::{TaskPoll, UnsyncChannel};

/// However inserts and removals interleave, the queue never exceeds its
/// bound, and rejected inserts come straight back.
#[test]
fn length_never_exceeds_limit() {
    let mut ch: UnsyncChannel<i32> = UnsyncChannel::new(2);
    assert_eq!(ch.limit(), 2);
    assert_eq!(ch.try_insert(1), None);
    assert!(ch.len() <= 2);
    assert_eq!(ch.try_insert(2), None);
    assert!(ch.len() <= 2);
    assert_eq!(ch.try_insert(3), Some(3));
    assert!(ch.len() <= 2);
    assert_eq!(ch.try_get(), Some(1));
    assert_eq!(ch.try_insert(4), None);
    assert!(ch.len() <= 2);
    assert_eq!(ch.try_insert(5), Some(5));
    assert!(ch.len() <= 2);
}

/// Values come out in the order their inserts succeeded.
#[test]
fn fifo_order() {
    let mut ch: UnsyncChannel<i32> = UnsyncChannel::new(0); // unbounded
    assert_eq!(ch.try_insert(10), None);
    assert_eq!(ch.try_insert(20), None);
    assert_eq!(ch.try_insert(30), None);
    assert_eq!(ch.try_get(), Some(10));
    assert_eq!(ch.try_get(), Some(20));
    assert_eq!(ch.try_get(), Some(30));
    assert_eq!(ch.try_get(), None);
}

/// A channel without a bound accepts everything.
#[test]
fn unbounded_channel_never_rejects() {
    let mut ch: UnsyncChannel<String> = UnsyncChannel::new(0);
    for i in 0..100 {
        assert_eq!(ch.try_insert(format!("v{}", i)), None);
    }
    assert_eq!(ch.len(), 100);
    assert_eq!(ch.try_get().as_deref(), Some("v0"));
}

/// Channel with limit 1: X's first insert succeeds, the second blocks; after
/// Y receives the first value, the pending insert succeeds on its next poll.
#[test]
fn blocked_insert_succeeds_after_get() {
    let mut ch: UnsyncChannel<i32> = UnsyncChannel::new(1);
    assert_eq!(ch.try_insert(10), None);

    let mut pending = ch.insert(20);
    assert!(matches!(pending.poll(&mut ch), TaskPoll::Pending));
    assert_eq!(ch.len(), 1);

    let mut get = ch.get();
    match get.poll(&mut ch) {
        TaskPoll::Ready(v) => assert_eq!(v, 10),
        TaskPoll::Pending => panic!("the first value was there to take"),
    }

    assert!(matches!(pending.poll(&mut ch), TaskPoll::Ready(())));
    assert_eq!(ch.try_get(), Some(20));
}

/// A receive on an empty channel stays pending until a value arrives.
#[test]
fn get_waits_for_a_value() {
    let mut ch: UnsyncChannel<i32> = UnsyncChannel::new(0);
    let mut get = ch.get();
    assert!(matches!(get.poll(&mut ch), TaskPoll::Pending));
    assert_eq!(ch.try_insert(7), None);
    match get.poll(&mut ch) {
        TaskPoll::Ready(v) => assert_eq!(v, 7),
        TaskPoll::Pending => panic!("a value was there to take"),
    }
}

/// Dropping a pending insert before it succeeds releases the held value and
/// leaves the channel exactly as it was.
#[test]
fn dropping_pending_insert_leaks_nothing() {
    let mut ch: UnsyncChannel<std::rc::Rc<i32>> = UnsyncChannel::new(1);
    let first = std::rc::Rc::new(1);
    assert!(ch.try_insert(first.clone()).is_none());

    let held = std::rc::Rc::new(2);
    let mut pending = ch.insert(held.clone());
    assert_eq!(std::rc::Rc::strong_count(&held), 2);
    assert!(matches!(pending.poll(&mut ch), TaskPoll::Pending));
    drop(pending);
    // the held value was dropped with the future, not leaked and not doubled
    assert_eq!(std::rc::Rc::strong_count(&held), 1);

    // and the channel still holds exactly the first value
    assert_eq!(ch.len(), 1);
    assert_eq!(ch.try_get().as_deref(), Some(&1));
}
