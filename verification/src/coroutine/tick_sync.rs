//! The tick barrier: a variable set of subscribed tasks agree to advance one
//! epoch per external tick, once every subscriber has checked in.

use vstd::prelude::*;

use crate::coroutine::task::{Coroutine, SleepFuture, TaskPoll, TickCtx};

verus! {

/// Shared barrier state: how many tasks are subscribed, the current epoch, and
/// how many subscribers have checked in since the epoch began.
#[derive(Clone, Copy, Debug, PartialEq, Eq, Structural)]
pub struct TickSyncCtx {
    pub subscribed: usize,
    pub epoch: usize,
    pub runned_this_epoch: usize,
}

/// The barrier state after one more task subscribes.
pub open spec fn subscribed_one_more(s: TickSyncCtx) -> TickSyncCtx {
    TickSyncCtx {
        subscribed: (s.subscribed + 1) as usize,
        epoch: s.epoch,
        runned_this_epoch: s.runned_this_epoch,
    }
}

/// The barrier state after one task drops its subscription.
pub open spec fn subscribed_one_less(s: TickSyncCtx) -> TickSyncCtx {
    TickSyncCtx {
        subscribed: (s.subscribed - 1) as usize,
        epoch: s.epoch,
        runned_this_epoch: s.runned_this_epoch,
    }
}

impl TickSyncCtx {
    /// A barrier with no subscribers, at epoch zero.
    pub fn new() -> (s: TickSyncCtx)
        ensures
            s.subscribed == 0,
            s.epoch == 0,
            s.runned_this_epoch == 0,
    {
        TickSyncCtx { subscribed: 0, epoch: 0, runned_this_epoch: 0 }
    }

    /// Count one more subscriber.
    pub fn subscribe(&mut self)
        requires
            old(self).subscribed < usize::MAX,
        ensures
            *final(self) == subscribed_one_more(*old(self)),
    {
        self.subscribed = self.subscribed + 1;
    }

    /// Count one subscriber out.
    pub fn desubscribe(&mut self)
        requires
            old(self).subscribed > 0,
        ensures
            *final(self) == subscribed_one_less(*old(self)),
    {
        self.subscribed = self.subscribed - 1;
    }

    /// Advance to the next epoch.
    pub fn increase_epoch(&mut self)
        requires
            old(self).epoch < usize::MAX,
        ensures
            final(self).epoch == old(self).epoch + 1,
            final(self).subscribed == old(self).subscribed,
            final(self).runned_this_epoch == old(self).runned_this_epoch,
    {
        self.epoch = self.epoch + 1;
    }

    /// Forget the check-ins of the finished epoch.
    pub fn clear_run(&mut self)
        ensures
            final(self).runned_this_epoch == 0,
            final(self).subscribed == old(self).subscribed,
            final(self).epoch == old(self).epoch,
    {
        self.runned_this_epoch = 0;
    }

    /// Count one more check-in for the current epoch.
    pub fn increase_run(&mut self)
        requires
            old(self).runned_this_epoch < usize::MAX,
        ensures
            final(self).runned_this_epoch == old(self).runned_this_epoch + 1,
            final(self).subscribed == old(self).subscribed,
            final(self).epoch == old(self).epoch,
    {
        self.runned_this_epoch = self.runned_this_epoch + 1;
    }

    /// The current epoch.
    pub fn epoch(&self) -> (e: usize)
        ensures
            e == self.epoch,
    {
        self.epoch
    }
}

/// Leaving the barrier and rejoining it at once puts the barrier back exactly
/// where it was, so a `no_sync` window that does nothing cannot change how the
/// epochs progress.
pub proof fn lemma_no_sync_roundtrip(s: TickSyncCtx)
    requires
        s.subscribed > 0,
    ensures
        subscribed_one_more(subscribed_one_less(s)) == s,
{
}

/// While check-ins never outnumber the subscribers, the barrier opens
/// exactly when every one of them has checked in, neither earlier nor on a
/// surplus.
pub proof fn lemma_barrier_opens_at_full_count(s: TickSyncCtx)
    requires
        s.runned_this_epoch <= s.subscribed,
    ensures
        (s.runned_this_epoch >= s.subscribed) <==> (s.runned_this_epoch == s.subscribed),
{
}

/// One subscription of the barrier, counted in `subscribed` while it lives.
#[derive(Debug)]
pub struct TickSyncer;

/// A pending check-in: resolves once the epoch it was created in is over.
#[derive(Clone, Copy, Debug)]
pub struct SyncFuture {
    /// The epoch that was current when the check-in began.
    pub epoch: usize,
    /// Whether this check-in has been counted yet.
    pub runned: bool,
}

/// The barrier administrator's step: resolves once every subscriber of the
/// current epoch has checked in, resetting the count and advancing the epoch.
#[derive(Clone, Copy, Debug)]
pub struct HandleSyncFuture;

/// A scoped desubscription: while it is held the owning `TickSyncer` is not
/// counted, so the other subscribers do not wait for it. Rejoining is
/// explicit, never by drop: a guard dropped without `resubscribe` — as when
/// its task is cancelled — leaves the subscription down.
#[derive(Debug)]
pub struct NoSync;

/// A check-in against the current epoch of the barrier.
pub(crate) fn tick_sync(ctx: &TickSyncCtx) -> (f: SyncFuture)
    ensures
        f.epoch == ctx.epoch,
        !f.runned,
{
    SyncFuture { epoch: ctx.epoch, runned: false }
}

/// The administrator's step future.
pub(crate) fn tick_sync_handle() -> (f: HandleSyncFuture) {
    HandleSyncFuture
}

impl TickSyncer {
    /// Join the barrier: one more subscriber is counted from here on.
    pub fn new(ctx: &mut TickSyncCtx) -> (s: TickSyncer)
        requires
            old(ctx).subscribed < usize::MAX,
        ensures
            *final(ctx) == subscribed_one_more(*old(ctx)),
    {
        ctx.subscribe();
        TickSyncer
    }

    /// Check in for the current epoch; the returned future resolves once the
    /// epoch has advanced past it.
    pub fn sync(&mut self, ctx: &TickSyncCtx) -> (f: SyncFuture)
        ensures
            f.epoch == ctx.epoch,
            !f.runned,
    {
        tick_sync(ctx)
    }

    /// Step out of the barrier until the returned guard is given back.
    pub fn no_sync(&mut self, ctx: &mut TickSyncCtx) -> (g: NoSync)
        requires
            old(ctx).subscribed > 0,
        ensures
            *final(ctx) == subscribed_one_less(*old(ctx)),
    {
        ctx.desubscribe();
        NoSync
    }

    /// Sleep without stalling the barrier: the subscription is dropped for
    /// the length of the sleep and taken up again when it ends.
    pub fn sleep(&mut self, ctx: &mut TickSyncCtx, time_ms: u64, now_ms: u64) -> (f:
        TickSleepFuture)
        requires
            old(ctx).subscribed > 0,
        ensures
            *final(ctx) == subscribed_one_less(*old(ctx)),
            !f.resubscribed,
            f.inner.duration_ms == time_ms,
            f.inner.start_ms == now_ms,
    {
        ctx.desubscribe();
        TickSleepFuture { inner: crate::coroutine::task::sleep(time_ms, now_ms), resubscribed: false }
    }

    /// The administrator's step; exactly one task that is not itself a
    /// subscriber must drive it every tick.
    pub fn handle_sync() -> (f: HandleSyncFuture) {
        tick_sync_handle()
    }

    /// Leave the barrier for good.
    pub fn unsubscribe(self, ctx: &mut TickSyncCtx)
        requires
            old(ctx).subscribed > 0,
        ensures
            *final(ctx) == subscribed_one_less(*old(ctx)),
    {
        ctx.desubscribe();
    }
}

impl NoSync {
    /// Give the guard back: the owning `TickSyncer` is counted again.
    pub fn resubscribe(self, ctx: &mut TickSyncCtx)
        requires
            old(ctx).subscribed < usize::MAX,
        ensures
            *final(ctx) == subscribed_one_more(*old(ctx)),
    {
        ctx.subscribe();
    }
}

/// A sleep taken outside the barrier: the owning `TickSyncer` is not counted
/// until the sleep ends and the subscription is taken up again.
#[derive(Clone, Copy, Debug)]
pub struct TickSleepFuture {
    /// The underlying sleep.
    pub inner: SleepFuture,
    /// Whether the sleep has ended and the subscription is back.
    pub resubscribed: bool,
}

impl TickSleepFuture {
    /// One poll against the current clock reading: pending while the sleep
    /// lasts; the poll that finds the sleep over takes the subscription up
    /// again, once, and resolves.
    pub fn poll(&mut self, ctx: &mut TickSyncCtx, now_ms: u64) -> (r: TaskPoll<()>)
        requires
            old(self).resubscribed || old(ctx).subscribed < usize::MAX,
        ensures
            r is Ready <==> now_ms > old(self).inner.start_ms + old(self).inner.duration_ms,
            final(self).inner == old(self).inner,
            r is Pending ==> *final(ctx) == *old(ctx) && *final(self) == *old(self),
            r is Ready && !old(self).resubscribed ==> *final(ctx) == subscribed_one_more(*old(ctx))
                && final(self).resubscribed,
            r is Ready && old(self).resubscribed ==> *final(ctx) == *old(ctx) && *final(self)
                == *old(self),
    {
        match self.inner.poll(now_ms) {
            TaskPoll::Pending => TaskPoll::Pending,
            TaskPoll::Ready(_) => {
                if !self.resubscribed {
                    ctx.subscribe();
                    self.resubscribed = true;
                }
                TaskPoll::Ready(())
            },
        }
    }
}

impl SyncFuture {
    /// One poll of a pending check-in. The first poll counts it, exactly once;
    /// the future stays pending until the epoch it was created in is over.
    pub fn poll(&mut self, ctx: &mut TickSyncCtx) -> (r: TaskPoll<()>)
        requires
            old(self).runned || old(ctx).runned_this_epoch < usize::MAX,
        ensures
            r is Ready <==> old(self).epoch < old(ctx).epoch,
            r is Ready ==> *final(ctx) == *old(ctx) && *final(self) == *old(self),
            r is Pending && old(self).runned ==> *final(ctx) == *old(ctx) && *final(self) == *old(self),
            r is Pending && !old(self).runned ==> final(ctx).runned_this_epoch == old(ctx).runned_this_epoch + 1 && final(ctx).subscribed == old(ctx).subscribed && final(ctx).epoch == old(ctx).epoch && final(self).runned && final(self).epoch == old(self).epoch,
    {
        if self.epoch < ctx.epoch() {
            TaskPoll::Ready(())
        } else {
            if !self.runned {
                ctx.increase_run();
                self.runned = true;
            }
            TaskPoll::Pending
        }
    }
}

impl HandleSyncFuture {
    /// One poll of the administrator: when every counted subscriber has checked
    /// in, and only then, the check-ins reset and the epoch advances.
    pub fn poll(&mut self, ctx: &mut TickSyncCtx) -> (r: TaskPoll<()>)
        requires
            old(ctx).runned_this_epoch >= old(ctx).subscribed ==> old(ctx).epoch < usize::MAX,
        ensures
            r is Ready <==> old(ctx).runned_this_epoch >= old(ctx).subscribed,
            r is Ready ==> final(ctx).epoch == old(ctx).epoch + 1 && final(ctx).runned_this_epoch
                == 0 && final(ctx).subscribed == old(ctx).subscribed,
            r is Pending ==> *final(ctx) == *old(ctx),
    {
        let runned = ctx.runned_this_epoch;
        let subscribed = ctx.subscribed;
        if runned >= subscribed {
            ctx.clear_run();
            ctx.increase_epoch();
            TaskPoll::Ready(())
        } else {
            TaskPoll::Pending
        }
    }
}

impl<W> Coroutine<W> for SyncFuture {
    type Output = ();

    /// Ready exactly when the barrier's epoch has moved past the captured
    /// one (the counter's saturation point excepted); the first pending poll
    /// counts the check-in exactly once; nothing else is touched.
    open spec fn poll_rel(
        pre: Self,
        post: Self,
        c0: TickCtx,
        c1: TickCtx,
        w0: W,
        w1: W,
        r: TaskPoll<()>,
    ) -> bool {
        &&& w1 == w0
        &&& c1.yield_counter == c0.yield_counter
        &&& c1.syncer.epoch == c0.syncer.epoch
        &&& c1.syncer.subscribed == c0.syncer.subscribed
        &&& r is Ready ==> pre.epoch < c0.syncer.epoch && post == pre && c1 == c0
        &&& pre.epoch < c0.syncer.epoch && (pre.runned || c0.syncer.runned_this_epoch
            < usize::MAX) ==> r is Ready
        &&& r is Pending && pre.runned ==> post == pre && c1 == c0
        &&& r is Pending && !pre.runned ==> post.epoch == pre.epoch && ((
        c0.syncer.runned_this_epoch < usize::MAX && post.runned && c1.syncer.runned_this_epoch
            == c0.syncer.runned_this_epoch + 1) || (c0.syncer.runned_this_epoch == usize::MAX
            && post == pre && c1 == c0))
    }

    fn poll_task(&mut self, ctx: &mut TickCtx, _world: &mut W) -> (r: TaskPoll<()>) {
        if self.runned || ctx.syncer.runned_this_epoch < usize::MAX {
            self.poll(&mut ctx.syncer)
        } else {
            TaskPoll::Pending
        }
    }
}

/// The barrier administrator as a task of its own: every poll it applies one
/// administrator step, and it never completes. Spawn exactly one of these, and
/// do not subscribe it.
#[derive(Debug)]
pub struct SyncHandleTask;

impl<W> Coroutine<W> for SyncHandleTask {
    type Output = ();

    /// Never completes; when every counted subscriber has checked in (and
    /// the epoch can still count up), the check-ins reset and the epoch
    /// advances, else nothing changes.
    open spec fn poll_rel(
        pre: Self,
        post: Self,
        c0: TickCtx,
        c1: TickCtx,
        w0: W,
        w1: W,
        r: TaskPoll<()>,
    ) -> bool {
        &&& r is Pending
        &&& w1 == w0
        &&& c1.yield_counter == c0.yield_counter
        &&& c1.syncer.subscribed == c0.syncer.subscribed
        &&& if c0.syncer.runned_this_epoch >= c0.syncer.subscribed && c0.syncer.epoch
            < usize::MAX {
            c1.syncer.epoch == c0.syncer.epoch + 1 && c1.syncer.runned_this_epoch == 0
        } else {
            c1 == c0
        }
    }

    fn poll_task(&mut self, ctx: &mut TickCtx, _world: &mut W) -> (r: TaskPoll<()>) {
        if ctx.syncer.epoch < usize::MAX || ctx.syncer.runned_this_epoch < ctx.syncer.subscribed {
            let mut step = tick_sync_handle();
            let _ = step.poll(&mut ctx.syncer);
        }
        TaskPoll::Pending
    }
}

} // verus!
