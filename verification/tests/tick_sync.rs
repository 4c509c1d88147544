use cc_wasm_api::coroutine::{Executor, SyncHandleTask, TaskPoll, TickSyncCtx, TickSyncer};

/// Two subscribers each call `sync()` once; after both check-ins the
/// administrator advances the epoch from 0 to 1, and both sync futures
/// resolve on their next poll.
#[test]
fn two_subscribers_advance_together() {
    let mut ctx = TickSyncCtx::new();
    let mut s1 = TickSyncer::new(&mut ctx);
    let mut s2 = TickSyncer::new(&mut ctx);
    assert_eq!(ctx.subscribed, 2);

    let mut f1 = s1.sync(&ctx);
    let mut f2 = s2.sync(&ctx);

    assert!(matches!(f1.poll(&mut ctx), TaskPoll::Pending));
    assert_eq!(ctx.runned_this_epoch, 1);

    // one check-in is not enough for the administrator
    let mut admin = TickSyncer::handle_sync();
    assert!(matches!(admin.poll(&mut ctx), TaskPoll::Pending));
    assert_eq!(ctx.epoch(), 0);

    assert!(matches!(f2.poll(&mut ctx), TaskPoll::Pending));
    assert_eq!(ctx.runned_this_epoch, 2);

    assert!(matches!(admin.poll(&mut ctx), TaskPoll::Ready(())));
    assert_eq!(ctx.epoch(), 1);
    assert_eq!(ctx.runned_this_epoch, 0);

    assert!(matches!(f1.poll(&mut ctx), TaskPoll::Ready(())));
    assert!(matches!(f2.poll(&mut ctx), TaskPoll::Ready(())));
}

/// A check-in is counted once however often the pending future is polled.
#[test]
fn sync_counts_once_per_call() {
    let mut ctx = TickSyncCtx::new();
    let mut s = TickSyncer::new(&mut ctx);
    let mut f = s.sync(&ctx);
    for _ in 0..5 {
        assert!(matches!(f.poll(&mut ctx), TaskPoll::Pending));
    }
    assert_eq!(ctx.runned_this_epoch, 1);
}

/// Taking a `no_sync` window and giving it back at once leaves the barrier
/// exactly as it was, so the epoch progression is unchanged.
#[test]
fn no_sync_roundtrip_changes_nothing() {
    let mut plain = TickSyncCtx::new();
    let mut s1 = TickSyncer::new(&mut plain);
    let mut t1 = TickSyncer::new(&mut plain);

    let mut windowed = TickSyncCtx::new();
    let mut s2 = TickSyncer::new(&mut windowed);
    let mut t2 = TickSyncer::new(&mut windowed);
    let guard = s2.no_sync(&mut windowed);
    guard.resubscribe(&mut windowed);
    assert_eq!(windowed, plain);

    // the same work in both barriers ends at the same epoch
    for (ctx, a, b) in [(&mut plain, &mut s1, &mut t1), (&mut windowed, &mut s2, &mut t2)] {
        let mut fa = a.sync(ctx);
        let mut fb = b.sync(ctx);
        assert!(matches!(fa.poll(ctx), TaskPoll::Pending));
        assert!(matches!(fb.poll(ctx), TaskPoll::Pending));
        let mut admin = TickSyncer::handle_sync();
        assert!(matches!(admin.poll(ctx), TaskPoll::Ready(())));
    }
    assert_eq!(plain.epoch(), 1);
    assert_eq!(windowed.epoch(), 1);
}

/// While a subscriber holds a `no_sync` window it is not waited for: the
/// remaining subscriber alone fills the barrier.
#[test]
fn no_sync_excludes_a_subscriber() {
    let mut ctx = TickSyncCtx::new();
    let mut s = TickSyncer::new(&mut ctx);
    let mut idle = TickSyncer::new(&mut ctx);
    let guard = idle.no_sync(&mut ctx);
    assert_eq!(ctx.subscribed, 1);

    let mut f = s.sync(&ctx);
    assert!(matches!(f.poll(&mut ctx), TaskPoll::Pending));
    let mut admin = TickSyncer::handle_sync();
    assert!(matches!(admin.poll(&mut ctx), TaskPoll::Ready(())));
    assert_eq!(ctx.epoch(), 1);

    guard.resubscribe(&mut ctx);
    assert_eq!(ctx.subscribed, 2);
    idle.unsubscribe(&mut ctx);
    s.unsubscribe(&mut ctx);
    assert_eq!(ctx.subscribed, 0);
}

/// The administrator can be registered only once: later calls hand the
/// first handle back and add nothing.
#[test]
fn administrator_is_spawned_at_most_once() {
    let mut ex: Executor<SyncHandleTask> = Executor::new();
    let first = ex.spawn_handle_coroutine(SyncHandleTask);
    let again = ex.spawn_handle_coroutine(SyncHandleTask);
    assert_eq!(first.id, again.id);
    ex.tick(&mut ());
    assert_eq!(ex.coroutines(), 1); // one administrator, never two
    // the administrator advanced the empty barrier by one epoch per pass
    assert_eq!(ex.ctx.syncer.epoch, 1);
}

/// A barrier sleep drops the subscription while it lasts and takes it up
/// again when it ends.
#[test]
fn barrier_sleep_desubscribes() {
    let mut ctx = TickSyncCtx::new();
    let mut s = TickSyncer::new(&mut ctx);
    let mut other = TickSyncer::new(&mut ctx);
    let _ = &mut other;
    assert_eq!(ctx.subscribed, 2);

    let mut nap = s.sleep(&mut ctx, 100, 1000);
    assert_eq!(ctx.subscribed, 1);
    assert!(matches!(nap.poll(&mut ctx, 1050), TaskPoll::Pending));
    assert_eq!(ctx.subscribed, 1);
    assert!(matches!(nap.poll(&mut ctx, 1101), TaskPoll::Ready(())));
    assert_eq!(ctx.subscribed, 2);
}
