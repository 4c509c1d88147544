//! Tasks as explicit poll-state machines, and the leaf suspension primitives
//! that only need the shared tick context: yield and sleep.

use vstd::prelude::*;

use crate::coroutine::tick_sync::TickSyncCtx;

verus! {

/// The outcome of polling a task once: finished with a value, or suspended
/// until the next poll.
#[derive(Clone, Copy, Debug)]
pub enum TaskPoll<O> {
    Ready(O),
    Pending,
}

impl<O> TaskPoll<O> {
    /// Whether the poll left the task suspended.
    pub fn is_pending(&self) -> (b: bool)
        ensures
            b == (self is Pending),
    {
        match self {
            TaskPoll::Pending => true,
            TaskPoll::Ready(_) => false,
        }
    }

    /// Whether the poll finished the task.
    pub fn is_ready(&self) -> (b: bool)
        ensures
            b == (self is Ready),
    {
        match self {
            TaskPoll::Pending => false,
            TaskPoll::Ready(_) => true,
        }
    }
}

/// The state the executor shares with every task it polls: the yield counter
/// and the tick barrier.
#[derive(Clone, Copy, Debug)]
pub struct TickCtx {
    /// How many times tasks have yielded since the counter was last cleared.
    pub yield_counter: usize,
    /// The tick barrier's shared state.
    pub syncer: TickSyncCtx,
}

impl TickCtx {
    /// A fresh context: no yields counted, barrier empty at epoch zero.
    pub fn new() -> (c: TickCtx)
        ensures
            c.yield_counter == 0,
            c.syncer.subscribed == 0,
            c.syncer.epoch == 0,
            c.syncer.runned_this_epoch == 0,
    {
        TickCtx { yield_counter: 0, syncer: TickSyncCtx::new() }
    }

    /// Count one yield.
    pub fn increase_yield_counter(&mut self)
        requires
            old(self).yield_counter < usize::MAX,
        ensures
            final(self).yield_counter == old(self).yield_counter + 1,
            final(self).syncer == old(self).syncer,
    {
        self.yield_counter = self.yield_counter + 1;
    }

    /// Reset the yield counter.
    pub fn clear_yield_counter(&mut self)
        ensures
            final(self).yield_counter == 0,
            final(self).syncer == old(self).syncer,
    {
        self.yield_counter = 0;
    }

    /// How many times tasks have yielded since the counter was last cleared.
    pub fn yield_counter(&self) -> (n: usize)
        ensures
            n == self.yield_counter,
    {
        self.yield_counter
    }
}

/// A task the executor can drive: one poll either finishes it with its output
/// or leaves it suspended for the next poll. `W` is whatever state the tasks
/// of one program share beyond the tick context.
///
/// `poll_rel` is the task's own account of what one poll does: it relates
/// the task, the tick context and the world before the poll to the three
/// after it, and the outcome. The executor's contract speaks of polls
/// through this relation; an impl that keeps the default gives no account.
pub trait Coroutine<W>: Sized {
    type Output;

    open spec fn poll_rel(
        pre: Self,
        post: Self,
        ctx_pre: TickCtx,
        ctx_post: TickCtx,
        w_pre: W,
        w_post: W,
        r: TaskPoll<Self::Output>,
    ) -> bool {
        true
    }

    fn poll_task(&mut self, ctx: &mut TickCtx, world: &mut W) -> (r: TaskPoll<Self::Output>)
        ensures
            Self::poll_rel(
                *old(self),
                *final(self),
                *old(ctx),
                *final(ctx),
                *old(world),
                *final(world),
                r,
            ),
    ;
}

/// A source of wall-clock time, read by sleeping tasks. The host supplies the
/// clock; nothing is assumed of the values it reports.
pub trait Clock {
    fn now_ms(&self) -> u64;
}

/// A future that is pending exactly once, then ready.
#[derive(Clone, Copy, Debug)]
pub struct YieldFuture {
    /// Whether the one pending poll has already happened.
    pub done: bool,
}

/// Hand control back to the executor once: the returned future is pending on
/// its first poll and ready on every later one.
pub fn yield_now() -> (f: YieldFuture)
    ensures
        !f.done,
{
    YieldFuture { done: false }
}

impl YieldFuture {
    /// One poll: pending the first time, counting the yield; ready after.
    pub fn poll(&mut self, ctx: &mut TickCtx) -> (r: TaskPoll<()>)
        requires
            old(self).done || old(ctx).yield_counter < usize::MAX,
        ensures
            r is Ready <==> old(self).done,
            final(self).done,
            old(self).done ==> *final(self) == *old(self),
            old(self).done ==> *final(ctx) == *old(ctx),
            !old(self).done ==> final(ctx).yield_counter == old(ctx).yield_counter + 1 && final(ctx).syncer == old(ctx).syncer,
    {
        if self.done {
            TaskPoll::Ready(())
        } else {
            self.done = true;
            ctx.increase_yield_counter();
            TaskPoll::Pending
        }
    }
}

impl<W> Coroutine<W> for YieldFuture {
    type Output = ();

    /// Ready exactly when the yield is spent; the first poll spends it and
    /// counts it, touching nothing else.
    open spec fn poll_rel(
        pre: Self,
        post: Self,
        c0: TickCtx,
        c1: TickCtx,
        w0: W,
        w1: W,
        r: TaskPoll<()>,
    ) -> bool {
        &&& r is Ready <==> pre.done
        &&& post.done
        &&& w1 == w0
        &&& c1.syncer == c0.syncer
        &&& pre.done ==> post == pre && c1 == c0
        &&& !pre.done && c0.yield_counter < usize::MAX ==> c1.yield_counter == c0.yield_counter
            + 1
        &&& !pre.done && c0.yield_counter == usize::MAX ==> c1 == c0
    }

    fn poll_task(&mut self, ctx: &mut TickCtx, _world: &mut W) -> (r: TaskPoll<()>) {
        if self.done || ctx.yield_counter < usize::MAX {
            self.poll(ctx)
        } else {
            self.done = true;
            TaskPoll::Pending
        }
    }
}

/// A future that is pending until the clock has moved `duration_ms` past the
/// moment it was created.
#[derive(Clone, Copy, Debug)]
pub struct SleepFuture {
    /// How long to stay pending, in milliseconds.
    pub duration_ms: u64,
    /// The clock reading when the sleep began.
    pub start_ms: u64,
}

/// Sleep for `time_ms` milliseconds, measured from the clock reading `now_ms`
/// taken at the call.
pub fn sleep(time_ms: u64, now_ms: u64) -> (f: SleepFuture)
    ensures
        f.duration_ms == time_ms,
        f.start_ms == now_ms,
{
    SleepFuture { duration_ms: time_ms, start_ms: now_ms }
}

impl SleepFuture {
    /// One poll against the current clock reading: ready exactly when more
    /// than the requested duration has passed since the sleep began.
    pub fn poll(&self, now_ms: u64) -> (r: TaskPoll<()>)
        ensures
            r is Ready <==> now_ms > self.start_ms + self.duration_ms,
    {
        if now_ms >= self.start_ms && now_ms - self.start_ms > self.duration_ms {
            TaskPoll::Ready(())
        } else {
            TaskPoll::Pending
        }
    }
}

impl<W: Clock> Coroutine<W> for SleepFuture {
    type Output = ();

    /// The sleep itself never changes, and it touches nothing; only the
    /// clock decides the outcome.
    open spec fn poll_rel(
        pre: Self,
        post: Self,
        c0: TickCtx,
        c1: TickCtx,
        w0: W,
        w1: W,
        r: TaskPoll<()>,
    ) -> bool {
        &&& post == pre
        &&& c1 == c0
        &&& w1 == w0
    }

    fn poll_task(&mut self, _ctx: &mut TickCtx, world: &mut W) -> (r: TaskPoll<()>) {
        let now = world.now_ms();
        self.poll(now)
    }
}

/// One pending poll step from `a` to `b`, under some context and world.
pub open spec fn pending_step<W, T: Coroutine<W>>(a: T, b: T) -> bool {
    exists|c0: TickCtx, c1: TickCtx, w0: W, w1: W| #[trigger] T::poll_rel(
        a,
        b,
        c0,
        c1,
        w0,
        w1,
        TaskPoll::Pending,
    )
}

/// One finishing poll from `a` to `b` with output `v`, under some context
/// and world.
pub open spec fn ready_step<W, T: Coroutine<W>>(a: T, b: T, v: <T as Coroutine<W>>::Output) -> bool {
    exists|c0: TickCtx, c1: TickCtx, w0: W, w1: W| #[trigger] T::poll_rel(
        a,
        b,
        c0,
        c1,
        w0,
        w1,
        TaskPoll::Ready(v),
    )
}

/// A run of polls that all left the task pending: each consecutive pair of
/// states is related by the task's own account of one pending poll, under
/// some context and world.
pub open spec fn pending_chain<W, T: Coroutine<W>>(chain: Seq<T>) -> bool {
    forall|i: int|
        0 <= i < chain.len() - 1 ==> pending_step::<W, T>(#[trigger] chain[i], chain[i + 1])
}

/// A finished blocking run, described by its witnesses: from `start`, the
/// task walked `chain` through pending polls, and one more poll finished it
/// with `v`, leaving it as `last`.
pub open spec fn blocked_run<W, T: Coroutine<W>>(
    start: T,
    v: <T as Coroutine<W>>::Output,
    chain: Seq<T>,
    last: T,
) -> bool {
    &&& chain.len() >= 1
    &&& chain[0] == start
    &&& pending_chain::<W, T>(chain)
    &&& ready_step::<W, T>(chain[chain.len() - 1], last, v)
}

/// A run of exactly `n` polls from `start`, every one pending.
pub open spec fn some_pending_run<W, T: Coroutine<W>>(start: T, n: int) -> bool {
    exists|chain: Seq<T>|
        chain.len() == n + 1 && chain[0] == start && pending_chain::<W, T>(chain)
}

/// Whether some finished blocking run from `start` can yield `v`: the
/// witnesses of `blocked_run`, existentially.
pub open spec fn some_blocked_run<W, T: Coroutine<W>>(
    start: T,
    v: <T as Coroutine<W>>::Output,
) -> bool {
    exists|chain: Seq<T>, last: T| blocked_run::<W, T>(start, v, chain, last)
}

/// Poll a task over and over until it finishes, and return its output.
/// This spins through pending polls without yielding to anything else. Every
/// run is finite: after `usize::MAX` pending polls in a row the driver gives
/// up and returns `None`, a bound no real task reaches.
pub fn block_on_no_alloc<W, T: Coroutine<W>>(fut: T, ctx: &mut TickCtx, world: &mut W) -> (r:
    Option<T::Output>)
    ensures
        r matches Some(v) ==> some_blocked_run::<W, T>(fut, v),
        r is None ==> some_pending_run::<W, T>(fut, usize::MAX as int),
{
    block_on_no_alloc_limited(fut, usize::MAX - 1, ctx, world)
}

/// Poll a task until it finishes or until it has been pending `count + 1`
/// times; `None` means the allowance ran out after `count + 1` pending
/// polls.
pub fn block_on_no_alloc_limited<W, T: Coroutine<W>>(
    fut: T,
    count: usize,
    ctx: &mut TickCtx,
    world: &mut W,
) -> (r: Option<T::Output>)
    ensures
        r matches Some(v) ==> some_blocked_run::<W, T>(fut, v),
        r is None ==> some_pending_run::<W, T>(fut, count + 1),
{
    let mut cur = fut;
    let ghost mut chain: Seq<T> = seq![fut];
    let mut polled: usize = 0;
    while polled <= count
        invariant
            polled <= count,
            chain.len() == polled + 1,
            chain[0] == fut,
            chain[chain.len() - 1] == cur,
            pending_chain::<W, T>(chain),
        decreases count - polled,
    {
        let ghost pre = cur;
        let ghost cpre = *ctx;
        let ghost wpre = *world;
        let poll = cur.poll_task(ctx, world);
        let ghost cpost = *ctx;
        let ghost wpost = *world;
        match poll {
            TaskPoll::Ready(v) => {
                proof {
                    assert(T::poll_rel(pre, cur, cpre, cpost, wpre, wpost, TaskPoll::Ready(v)));
                    assert(ready_step::<W, T>(chain[chain.len() - 1], cur, v));
                    assert(blocked_run::<W, T>(fut, v, chain, cur));
                    assert(some_blocked_run::<W, T>(fut, v));
                }
                return Some(v);
            },
            TaskPoll::Pending => {
                proof {
                    let ghost before = chain;
                    chain = chain.push(cur);
                    assert forall|i: int|
                        0 <= i < chain.len() - 1 implies pending_step::<W, T>(
                        #[trigger] chain[i],
                        chain[i + 1],
                    ) by {
                        if i < before.len() - 1 {
                            assert(chain[i] == before[i] && chain[i + 1] == before[i + 1]);
                        } else {
                            assert(chain[i] == pre && chain[i + 1] == cur);
                            assert(T::poll_rel(pre, cur, cpre, cpost, wpre, wpost, TaskPoll::Pending));
                        }
                    }
                }
                if polled >= count {
                    proof {
                        assert(pending_chain::<W, T>(chain));
                        assert(some_pending_run::<W, T>(fut, count + 1));
                    }
                    return None;
                }
                polled = polled + 1;
            },
        }
    }
    None
}

/// Poll a task until it finishes, or until the stop condition holds after a
/// pending poll; `None` means it was stopped after at least one pending
/// poll, unless the driver's own give-up bound of `usize::MAX` pending
/// polls was reached first.
pub fn block_on_no_alloc_stopable<W, T: Coroutine<W>, F: Fn(&W) -> bool>(
    fut: T,
    ctx: &mut TickCtx,
    world: &mut W,
    stop: F,
) -> (r: Option<T::Output>)
    requires
        forall|w: &W| stop.requires((w,)),
    ensures
        r matches Some(v) ==> some_blocked_run::<W, T>(fut, v),
        r is None ==> ((exists|w: W| stop.ensures((&w,), true)) && (exists|n: int|
            1 <= n && some_pending_run::<W, T>(fut, n))) || some_pending_run::<W, T>(
            fut,
            usize::MAX as int,
        ),
{
    let mut cur = fut;
    let ghost mut chain: Seq<T> = seq![fut];
    let mut polled: usize = 0;
    while polled < usize::MAX
        invariant
            forall|w: &W| stop.requires((w,)),
            chain.len() == polled + 1,
            chain[0] == fut,
            chain[chain.len() - 1] == cur,
            pending_chain::<W, T>(chain),
        decreases usize::MAX - polled,
    {
        let ghost pre = cur;
        let ghost cpre = *ctx;
        let ghost wpre = *world;
        let poll = cur.poll_task(ctx, world);
        let ghost cpost = *ctx;
        let ghost wpost = *world;
        match poll {
            TaskPoll::Ready(v) => {
                proof {
                    assert(T::poll_rel(pre, cur, cpre, cpost, wpre, wpost, TaskPoll::Ready(v)));
                    assert(ready_step::<W, T>(chain[chain.len() - 1], cur, v));
                    assert(blocked_run::<W, T>(fut, v, chain, cur));
                    assert(some_blocked_run::<W, T>(fut, v));
                }
                return Some(v);
            },
            TaskPoll::Pending => {
                proof {
                    let ghost before = chain;
                    chain = chain.push(cur);
                    assert forall|i: int|
                        0 <= i < chain.len() - 1 implies pending_step::<W, T>(
                        #[trigger] chain[i],
                        chain[i + 1],
                    ) by {
                        if i < before.len() - 1 {
                            assert(chain[i] == before[i] && chain[i + 1] == before[i + 1]);
                        } else {
                            assert(chain[i] == pre && chain[i + 1] == cur);
                            assert(T::poll_rel(pre, cur, cpre, cpost, wpre, wpost, TaskPoll::Pending));
                        }
                    }
                }
                let ghost wnow = *world;
                if stop(&*world) {
                    proof {
                        assert(stop.ensures((&wnow,), true));
                        assert(pending_chain::<W, T>(chain));
                        assert(some_pending_run::<W, T>(fut, (polled + 1) as int));
                        assert(exists|n: int| 1 <= n && some_pending_run::<W, T>(fut, n));
                    }
                    return None;
                }
                polled = polled + 1;
            },
        }
    }
    proof {
        assert(pending_chain::<W, T>(chain));
        assert(some_pending_run::<W, T>(fut, usize::MAX as int));
    }
    None
}

/// Blocking drivers, available as methods on every task.
pub trait BlocedFuture<W>: Coroutine<W> + Sized {
    /// Poll the receiver until it finishes; see `block_on_no_alloc`.
    fn block_on(self, ctx: &mut TickCtx, world: &mut W) -> (r: Option<Self::Output>)
        ensures
            r matches Some(v) ==> some_blocked_run::<W, Self>(self, v),
    ;

    /// Poll the receiver a bounded number of times; see
    /// `block_on_no_alloc_limited`.
    fn block_on_limited(self, count: usize, ctx: &mut TickCtx, world: &mut W) -> (r: Option<
        Self::Output,
    >)
        ensures
            r matches Some(v) ==> some_blocked_run::<W, Self>(self, v),
    ;
}

impl<W, T: Coroutine<W>> BlocedFuture<W> for T {
    fn block_on(self, ctx: &mut TickCtx, world: &mut W) -> Option<Self::Output> {
        block_on_no_alloc(self, ctx, world)
    }

    fn block_on_limited(self, count: usize, ctx: &mut TickCtx, world: &mut W) -> Option<
        Self::Output,
    > {
        block_on_no_alloc_limited(self, count, ctx, world)
    }
}

} // verus!
