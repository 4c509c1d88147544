use cc_wasm_api::coroutine::{AsyncLock, TaskPoll};

/// Two tasks acquiring the same lock never hold both guards at once: while
/// one guard is live, every further acquire stays pending, however often it
/// is polled.
#[test]
fn mutual_exclusion() {
    let mut lock: AsyncLock<i32> = AsyncLock::new(5);

    let mut first = lock.lock();
    let guard = match first.poll(&mut lock) {
        TaskPoll::Ready(g) => g,
        TaskPoll::Pending => panic!("the lock was free"),
    };

    let mut second = lock.lock();
    for _ in 0..10 {
        assert!(matches!(second.poll(&mut lock), TaskPoll::Pending));
    }

    assert_eq!(*guard.get(), 5);
    lock.unlock(guard);

    match second.poll(&mut lock) {
        TaskPoll::Ready(g) => assert_eq!(*g.get(), 5),
        TaskPoll::Pending => panic!("the lock had been released"),
    }
}

/// The guard carries the value: writes through it are seen by the next
/// acquirer after release.
#[test]
fn guard_gives_access_to_the_value() {
    let mut lock: AsyncLock<Vec<i32>> = AsyncLock::new(vec![1]);
    let mut acquire = lock.lock();
    let mut guard = match acquire.poll(&mut lock) {
        TaskPoll::Ready(g) => g,
        TaskPoll::Pending => panic!("the lock was free"),
    };
    guard.get_mut().push(2);
    lock.unlock(guard);

    let mut again = lock.lock();
    match again.poll(&mut lock) {
        TaskPoll::Ready(g) => assert_eq!(g.into_inner(), vec![1, 2]),
        TaskPoll::Pending => panic!("the lock had been released"),
    }
}

/// Replacing the guarded value through the guard.
#[test]
fn guard_set_replaces_the_value() {
    let mut lock: AsyncLock<i32> = AsyncLock::new(1);
    let mut acquire = lock.lock();
    let mut guard = match acquire.poll(&mut lock) {
        TaskPoll::Ready(g) => g,
        TaskPoll::Pending => panic!("the lock was free"),
    };
    guard.set(9);
    lock.unlock(guard);
    let mut again = lock.lock();
    match again.poll(&mut lock) {
        TaskPoll::Ready(g) => assert_eq!(g.into_inner(), 9),
        TaskPoll::Pending => panic!("the lock had been released"),
    }
}
