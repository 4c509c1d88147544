//! The executor: a registry of tasks polled once per external tick, with
//! shared cancellation handles and a process-wide stop flag.
//!
//! There are no wake notifications. A suspended task simply reports pending
//! and is tried again on the next pass; correctness rests on that re-polling
//! cadence, not on anything waking the task.

pub mod async_lock;
pub mod channel;
pub mod task;
pub mod tick_sync;

use vstd::prelude::*;

pub use async_lock::{AsyncLock, AsyncLockGuard, LockFuture};
pub use channel::{GetFuture, InsertFuture, UnsyncChannel};
pub use task::{
    block_on_no_alloc, block_on_no_alloc_limited, block_on_no_alloc_stopable, sleep, yield_now,
    BlocedFuture, Clock, Coroutine, SleepFuture, TaskPoll, TickCtx, YieldFuture,
};
pub use tick_sync::{
    HandleSyncFuture, NoSync, SyncFuture, SyncHandleTask, TickSleepFuture, TickSyncCtx, TickSyncer,
};

verus! {

/// A registered task together with the slot of its cancellation flag.
pub struct TaskEntry<T> {
    pub task: T,
    pub stopper_id: usize,
}

/// A cancellation handle for one spawned task. Any holder of a copy may stop
/// the task; the executor observes the flag lazily, after the task's next
/// poll.
#[derive(Clone, Copy, Debug)]
pub struct Stopper {
    /// The slot of the owning task's flag in the executor.
    pub id: usize,
}

/// The cooperative executor: the set of live tasks, the staging queue of
/// freshly spawned ones, the cancellation flags, the shared tick context, and
/// the externally observable outcome of the last tick.
pub struct Executor<T> {
    /// Tasks spawned since the last tick, not yet polled.
    pub spawned: Vec<TaskEntry<T>>,
    /// Tasks currently being polled each tick.
    pub active: Vec<TaskEntry<T>>,
    /// One cancellation flag per spawned task, never unset once set.
    pub stoppers: Vec<bool>,
    /// The state shared with every polled task.
    pub ctx: TickCtx,
    /// The number of live tasks as of the end of the last tick.
    pub active_count: usize,
    /// The process-wide stop flag: set when a tick ends with no live task.
    pub stopped: bool,
    /// The barrier administrator's handle, once one has been spawned; the
    /// latch that keeps a second administrator from being registered.
    pub handler: Option<Stopper>,
}

/// The entries a polling pass retains, in order: those whose poll left them
/// pending and whose cancellation flag is unset. `polled` are the entries in
/// their post-poll states, `results` what each poll returned.
pub open spec fn retained_of<T, O>(
    polled: Seq<TaskEntry<T>>,
    results: Seq<TaskPoll<O>>,
    stoppers: Seq<bool>,
) -> Seq<TaskEntry<T>>
    decreases polled.len(),
{
    if polled.len() == 0 {
        Seq::empty()
    } else {
        let rest = retained_of(polled.drop_first(), results.drop_first(), stoppers);
        if results[0] is Pending && polled[0].stopper_id < stoppers.len() && !stoppers[polled[0].stopper_id as int] {
            seq![polled[0]] + rest
        } else {
            rest
        }
    }
}

/// One more polled entry at the end is retained at the end, or not at all.
proof fn lemma_retained_push<T, O>(
    polled: Seq<TaskEntry<T>>,
    results: Seq<TaskPoll<O>>,
    stoppers: Seq<bool>,
    e: TaskEntry<T>,
    r: TaskPoll<O>,
)
    requires
        polled.len() == results.len(),
    ensures
        r is Pending && e.stopper_id < stoppers.len() && !stoppers[e.stopper_id as int]
            ==> retained_of(polled.push(e), results.push(r), stoppers) == retained_of(
            polled,
            results,
            stoppers,
        ) + seq![e],
        !(r is Pending && e.stopper_id < stoppers.len() && !stoppers[e.stopper_id as int])
            ==> retained_of(polled.push(e), results.push(r), stoppers) == retained_of(
            polled,
            results,
            stoppers,
        ),
    decreases polled.len(),
{
    assert(retained_of(
        Seq::<TaskEntry<T>>::empty(),
        Seq::<TaskPoll<O>>::empty(),
        stoppers,
    ) == Seq::<TaskEntry<T>>::empty());
    if polled.len() == 0 {
        assert(polled.push(e).drop_first() =~= Seq::<TaskEntry<T>>::empty());
        assert(results.push(r).drop_first() =~= Seq::<TaskPoll<O>>::empty());
        assert(polled.push(e)[0] == e && results.push(r)[0] == r);
        if r is Pending && e.stopper_id < stoppers.len() && !stoppers[e.stopper_id as int] {
            assert(retained_of(polled.push(e), results.push(r), stoppers) =~= retained_of(
                polled,
                results,
                stoppers,
            ) + seq![e]);
        } else {
            assert(retained_of(polled.push(e), results.push(r), stoppers) =~= retained_of(
                polled,
                results,
                stoppers,
            ));
        }
    } else {
        assert(polled.push(e).drop_first() =~= polled.drop_first().push(e));
        assert(results.push(r).drop_first() =~= results.drop_first().push(r));
        lemma_retained_push(polled.drop_first(), results.drop_first(), stoppers, e, r);
        assert(polled.push(e)[0] == polled[0] && results.push(r)[0] == results[0]);
        if r is Pending && e.stopper_id < stoppers.len() && !stoppers[e.stopper_id as int] {
            assert(retained_of(polled.push(e), results.push(r), stoppers) =~= retained_of(
                polled,
                results,
                stoppers,
            ) + seq![e]);
        } else {
            assert(retained_of(polled.push(e), results.push(r), stoppers) =~= retained_of(
                polled,
                results,
                stoppers,
            ));
        }
    }
}

/// One polling pass, described by its witnesses: `polled` holds, in order,
/// the post-poll state of every entry going in, `results` what each entry's
/// one poll returned, `ctxs` and `ws` the tick context and the world at the
/// poll boundaries (related entry by entry through the task's own
/// `poll_rel`), and `after` is exactly the retained entries.
pub open spec fn pass_witnessed<W, T: Coroutine<W>>(
    before: Seq<TaskEntry<T>>,
    stoppers: Seq<bool>,
    ctx0: TickCtx,
    ctx1: TickCtx,
    w0: W,
    w1: W,
    after: Seq<TaskEntry<T>>,
    polled: Seq<TaskEntry<T>>,
    results: Seq<TaskPoll<<T as Coroutine<W>>::Output>>,
    ctxs: Seq<TickCtx>,
    ws: Seq<W>,
) -> bool {
    &&& polled.len() == before.len()
    &&& results.len() == before.len()
    &&& ctxs.len() == before.len() + 1
    &&& ws.len() == before.len() + 1
    &&& ctxs[0] == ctx0
    &&& ctxs[ctxs.len() - 1] == ctx1
    &&& ws[0] == w0
    &&& ws[ws.len() - 1] == w1
    &&& forall|i: int|
        0 <= i < before.len() ==> (#[trigger] polled[i]).stopper_id == before[i].stopper_id
    &&& forall|i: int|
        0 <= i < before.len() ==> T::poll_rel(
            before[i].task,
            (#[trigger] polled[i]).task,
            ctxs[i],
            ctxs[i + 1],
            ws[i],
            ws[i + 1],
            results[i],
        )
    &&& after == retained_of(polled, results, stoppers)
}

/// One polling pass from `before` to `after`, taking the tick context from
/// `ctx0` to `ctx1` and the world from `w0` to `w1`: every entry was polled
/// exactly once, in order, each poll accounted for by the task's own
/// `poll_rel`, and `after` holds exactly those entries whose poll returned
/// pending and whose cancellation flag is unset, in their post-poll states.
pub open spec fn pass_rel<W, T: Coroutine<W>>(
    before: Seq<TaskEntry<T>>,
    stoppers: Seq<bool>,
    ctx0: TickCtx,
    ctx1: TickCtx,
    w0: W,
    w1: W,
    after: Seq<TaskEntry<T>>,
) -> bool {
    exists|
        polled: Seq<TaskEntry<T>>,
        results: Seq<TaskPoll<<T as Coroutine<W>>::Output>>,
        ctxs: Seq<TickCtx>,
        ws: Seq<W>,
    |
        pass_witnessed::<W, T>(
            before,
            stoppers,
            ctx0,
            ctx1,
            w0,
            w1,
            after,
            polled,
            results,
            ctxs,
            ws,
        )
}

/// A budgeted tick, described by its witnesses: `states`, `ctxs` and `ws`
/// walk from `before`, `ctx0` and `w0` to `after`, `ctx1` and `w1` in
/// exactly `passes` polling passes.
pub open spec fn budget_witnessed<W, T: Coroutine<W>>(
    before: Seq<TaskEntry<T>>,
    stoppers: Seq<bool>,
    ctx0: TickCtx,
    ctx1: TickCtx,
    w0: W,
    w1: W,
    after: Seq<TaskEntry<T>>,
    passes: int,
    states: Seq<Seq<TaskEntry<T>>>,
    ctxs: Seq<TickCtx>,
    ws: Seq<W>,
) -> bool {
    &&& states.len() == passes + 1
    &&& ctxs.len() == passes + 1
    &&& ws.len() == passes + 1
    &&& states[0] == before
    &&& states[states.len() - 1] == after
    &&& ctxs[0] == ctx0
    &&& ctxs[ctxs.len() - 1] == ctx1
    &&& ws[0] == w0
    &&& ws[ws.len() - 1] == w1
    &&& forall|i: int|
        0 <= i < states.len() - 1 ==> pass_rel::<W, T>(
            #[trigger] states[i],
            stoppers,
            ctxs[i],
            ctxs[i + 1],
            ws[i],
            ws[i + 1],
            states[i + 1],
        )
}

impl<T> Executor<T> {
    /// Every registered task points at an existing cancellation flag.
    pub open spec fn wf(&self) -> bool {
        &&& forall|i: int|
            0 <= i < self.spawned@.len() ==> (#[trigger] self.spawned@[i]).stopper_id
                < self.stoppers@.len()
        &&& forall|i: int|
            0 <= i < self.active@.len() ==> (#[trigger] self.active@[i]).stopper_id
                < self.stoppers@.len()
    }

    /// An executor with no tasks, not stopped.
    pub fn new() -> (ex: Executor<T>)
        ensures
            ex.wf(),
            ex.spawned@.len() == 0,
            ex.active@.len() == 0,
            ex.stoppers@.len() == 0,
            ex.active_count == 0,
            !ex.stopped,
            ex.handler is None,
            ex.ctx.yield_counter == 0,
            ex.ctx.syncer.subscribed == 0,
            ex.ctx.syncer.epoch == 0,
            ex.ctx.syncer.runned_this_epoch == 0,
    {
        Executor {
            spawned: Vec::new(),
            active: Vec::new(),
            stoppers: Vec::new(),
            ctx: TickCtx::new(),
            active_count: 0,
            stopped: false,
            handler: None,
        }
    }

    /// Register a task. It is staged until the next tick, which moves it into
    /// the active set before polling; the returned handle can cancel it at any
    /// time.
    pub fn spawn(&mut self, task: T) -> (s: Stopper)
        requires
            old(self).wf(),
        ensures
            final(self).wf(),
            s.id == old(self).stoppers@.len(),
            final(self).spawned@ == old(self).spawned@.push(
                (TaskEntry { task, stopper_id: old(self).stoppers@.len() as usize }),
            ),
            final(self).stoppers@ == old(self).stoppers@.push(false),
            final(self).active@ == old(self).active@,
            final(self).ctx == old(self).ctx,
            final(self).active_count == old(self).active_count,
            final(self).stopped == old(self).stopped,
            final(self).handler == old(self).handler,
    {
        let id = self.stoppers.len();
        self.stoppers.push(false);
        self.spawned.push(TaskEntry { task, stopper_id: id });
        Stopper { id }
    }

    /// Register the barrier administrator's task at most once: the first
    /// call spawns the given task — the caller's wrapper around
    /// `SyncHandleTask` — and keeps its handle; every later call hands the
    /// same handle back and changes nothing.
    pub fn spawn_handle_coroutine(&mut self, task: T) -> (s: Stopper)
        requires
            old(self).wf(),
        ensures
            final(self).wf(),
            old(self).handler matches Some(h) ==> s == h && *final(self) == *old(self),
            old(self).handler is None ==> s.id == old(self).stoppers@.len() && final(self).spawned@ == old(self).spawned@.push(
                (TaskEntry { task, stopper_id: old(self).stoppers@.len() as usize }),
            ) && final(self).stoppers@ == old(self).stoppers@.push(false) && final(self).handler
                == Some(s) && final(self).active@ == old(self).active@ && final(self).ctx == old(self).ctx && final(self).active_count == old(self).active_count && final(self).stopped
                == old(self).stopped,
    {
        match self.handler {
            Some(h) => h,
            None => {
                let s = self.spawn(task);
                self.handler = Some(s);
                s
            },
        }
    }

    /// The number of live tasks as of the end of the last tick. Tasks spawned
    /// or finished since then are not reflected until the next tick.
    pub fn coroutines(&self) -> (n: usize)
        ensures
            n == self.active_count,
    {
        self.active_count
    }

    /// Raise the process-wide stop flag by hand.
    pub fn stop(&mut self)
        ensures
            final(self).stopped,
            final(self).spawned@ == old(self).spawned@,
            final(self).active@ == old(self).active@,
            final(self).stoppers@ == old(self).stoppers@,
            final(self).ctx == old(self).ctx,
            final(self).active_count == old(self).active_count,
            final(self).handler == old(self).handler,
    {
        self.stopped = true;
    }

    /// Whether the process-wide stop flag has been raised.
    pub fn get_stopped(&self) -> (b: bool)
        ensures
            b == self.stopped,
    {
        self.stopped
    }

    /// Reset the yield counter.
    pub fn clear_yield_counter(&mut self)
        ensures
            final(self).ctx.yield_counter == 0,
            final(self).ctx.syncer == old(self).ctx.syncer,
            final(self).spawned@ == old(self).spawned@,
            final(self).active@ == old(self).active@,
            final(self).stoppers@ == old(self).stoppers@,
            final(self).active_count == old(self).active_count,
            final(self).stopped == old(self).stopped,
            final(self).handler == old(self).handler,
    {
        self.ctx.clear_yield_counter();
    }

    /// How many times tasks have yielded since the counter was last cleared.
    pub fn yield_counter(&self) -> (n: usize)
        ensures
            n == self.ctx.yield_counter,
    {
        self.ctx.yield_counter()
    }

    /// One polling pass over the active set, in registration order: each task
    /// is polled once and kept exactly when it is still pending and its
    /// cancellation flag is unset; `pass_rel` in the ensures carries that
    /// account. Returns how many tasks were removed.
    fn poll_pass<W>(&mut self, world: &mut W) -> (removed: usize) where T: Coroutine<W>
        requires
            old(self).wf(),
        ensures
            final(self).wf(),
            final(self).active@.len() + removed == old(self).active@.len(),
            final(self).spawned@ == old(self).spawned@,
            final(self).stoppers@ == old(self).stoppers@,
            final(self).active_count == old(self).active_count,
            final(self).stopped == old(self).stopped,
            final(self).handler == old(self).handler,
            pass_rel::<W, T>(
                old(self).active@,
                old(self).stoppers@,
                old(self).ctx,
                final(self).ctx,
                *old(world),
                *final(world),
                final(self).active@,
            ),
            forall|i: int|
                0 <= i < final(self).active@.len() ==> !final(self).stoppers@[(
                #[trigger] final(self).active@[i]).stopper_id as int],
    {
        let mut work: Vec<TaskEntry<T>> = Vec::new();
        core::mem::swap(&mut work, &mut self.active);
        let total: usize = work.len();
        let mut removed: usize = 0;
        let ghost mut gpolled: Seq<TaskEntry<T>> = Seq::empty();
        let ghost mut gresults: Seq<TaskPoll<<T as Coroutine<W>>::Output>> = Seq::empty();
        let ghost mut gctxs: Seq<TickCtx> = seq![self.ctx];
        let ghost mut gws: Seq<W> = seq![*world];
        proof {
            assert(retained_of(gpolled, gresults, old(self).stoppers@) == Seq::<TaskEntry<
                T,
            >>::empty());
            assert(work@ =~= old(self).active@.skip(0));
        }
        while work.len() > 0
            invariant
                total == old(self).active@.len(),
                forall|i: int|
                    0 <= i < work@.len() ==> (#[trigger] work@[i]).stopper_id
                        < self.stoppers@.len(),
                forall|i: int|
                    0 <= i < self.active@.len() ==> (#[trigger] self.active@[i]).stopper_id
                        < self.stoppers@.len(),
                forall|i: int|
                    0 <= i < self.active@.len() ==> !self.stoppers@[(
                    #[trigger] self.active@[i]).stopper_id as int],
                self.active@.len() + removed + work@.len() == total,
                self.spawned@ == old(self).spawned@,
                self.stoppers@ == old(self).stoppers@,
                self.active_count == old(self).active_count,
                self.stopped == old(self).stopped,
                self.handler == old(self).handler,
                gpolled.len() == gresults.len(),
                gpolled.len() + work@.len() == total,
                gctxs.len() == gpolled.len() + 1,
                gws.len() == gpolled.len() + 1,
                gctxs[0] == old(self).ctx,
                gctxs[gctxs.len() - 1] == self.ctx,
                gws[0] == *old(world),
                gws[gws.len() - 1] == *world,
                work@ == old(self).active@.skip(gpolled.len() as int),
                forall|i: int|
                    0 <= i < gpolled.len() ==> (#[trigger] gpolled[i]).stopper_id == old(self).active@[i].stopper_id,
                forall|i: int|
                    0 <= i < gpolled.len() ==> T::poll_rel(
                        old(self).active@[i].task,
                        (#[trigger] gpolled[i]).task,
                        gctxs[i],
                        gctxs[i + 1],
                        gws[i],
                        gws[i + 1],
                        gresults[i],
                    ),
                self.active@ == retained_of(gpolled, gresults, old(self).stoppers@),
            decreases work@.len(),
        {
            let ghost k = gpolled.len() as int;
            let mut entry = work.remove(0);
            let ghost pre_entry = entry;
            proof {
                assert(pre_entry == old(self).active@.skip(k)[0]);
                assert(pre_entry == old(self).active@[k]);
            }
            let ghost cpre = self.ctx;
            let ghost wpre = *world;
            let poll = entry.task.poll_task(&mut self.ctx, world);
            let ghost gpoll = poll;
            let ghost post_entry = entry;
            let keep = poll.is_pending() && !self.stoppers[entry.stopper_id];
            proof {
                lemma_retained_push::<T, <T as Coroutine<W>>::Output>(
                    gpolled,
                    gresults,
                    old(self).stoppers@,
                    post_entry,
                    gpoll,
                );
                gpolled = gpolled.push(post_entry);
                gresults = gresults.push(gpoll);
                gctxs = gctxs.push(self.ctx);
                gws = gws.push(*world);
                assert(work@ =~= old(self).active@.skip(gpolled.len() as int));
            }
            if keep {
                self.active.push(entry);
            } else {
                removed = removed + 1;
            }
        }
        proof {
            assert(pass_witnessed::<W, T>(
                old(self).active@,
                old(self).stoppers@,
                old(self).ctx,
                self.ctx,
                *old(world),
                *world,
                self.active@,
                gpolled,
                gresults,
                gctxs,
                gws,
            ));
        }
        removed
    }

    /// Move every staged task into the active set, keeping arrival order, so
    /// that tasks spawned since the last tick are polled from this tick on.
    fn drain_spawned(&mut self)
        requires
            old(self).wf(),
        ensures
            final(self).wf(),
            final(self).active@ == old(self).active@ + old(self).spawned@,
            final(self).spawned@.len() == 0,
            final(self).stoppers@ == old(self).stoppers@,
            final(self).ctx == old(self).ctx,
            final(self).active_count == old(self).active_count,
            final(self).stopped == old(self).stopped,
            final(self).handler == old(self).handler,
    {
        self.active.append(&mut self.spawned);
    }

    /// Record the outcome of a tick: publish the live-task count, and raise
    /// the process-wide stop flag when no task is left.
    fn finish_tick(&mut self)
        ensures
            final(self).active_count == final(self).active@.len(),
            final(self).stopped == (old(self).stopped || old(self).active@.len() == 0),
            final(self).spawned@ == old(self).spawned@,
            final(self).active@ == old(self).active@,
            final(self).stoppers@ == old(self).stoppers@,
            final(self).ctx == old(self).ctx,
            final(self).handler == old(self).handler,
    {
        self.active_count = self.active.len();
        if self.active_count == 0 {
            self.stopped = true;
        }
    }

    /// One tick: drain the staged tasks into the active set, in arrival
    /// order and before any polling, poll every active task once in
    /// registration order, drop each task that finished or whose
    /// cancellation flag is set, publish the live-task count, and raise the
    /// stop flag when nothing is left. Returns how many tasks were removed.
    ///
    /// The `pass_rel` clause is the accounting: the retained entries are
    /// exactly those of `old(active) + old(spawned)`, in order, whose one
    /// poll this tick left pending and whose flag is unset — so the
    /// published count equals the tasks handed in minus those that
    /// completed or were seen cancelled.
    pub fn tick<W>(&mut self, world: &mut W) -> (removed: usize) where T: Coroutine<W>
        requires
            old(self).wf(),
        ensures
            final(self).wf(),
            final(self).spawned@.len() == 0,
            final(self).active@.len() + removed == old(self).active@.len() + old(self).spawned@.len(),
            final(self).stoppers@ == old(self).stoppers@,
            final(self).active_count == final(self).active@.len(),
            final(self).stopped == (old(self).stopped || final(self).active@.len() == 0),
            final(self).handler == old(self).handler,
            pass_rel::<W, T>(
                old(self).active@ + old(self).spawned@,
                old(self).stoppers@,
                old(self).ctx,
                final(self).ctx,
                *old(world),
                *final(world),
                final(self).active@,
            ),
            forall|i: int|
                0 <= i < final(self).active@.len() ==> !final(self).stoppers@[(
                #[trigger] final(self).active@[i]).stopper_id as int],
    {
        self.drain_spawned();
        let removed = self.poll_pass(world);
        self.finish_tick();
        removed
    }

    /// A tick with a time budget, measured in extra polling passes: after the
    /// usual single pass, the active set is re-polled `extra_passes` more
    /// times before the outcome is recorded. Returns how many tasks were
    /// removed over all passes; the chain of pass relations in the ensures
    /// accounts for each pass as in `tick`.
    pub fn tick_budget<W>(&mut self, world: &mut W, extra_passes: usize) -> (removed: usize) where
        T: Coroutine<W>,

        requires
            old(self).wf(),
        ensures
            final(self).wf(),
            final(self).spawned@.len() == 0,
            final(self).active@.len() + removed == old(self).active@.len() + old(self).spawned@.len(),
            final(self).stoppers@ == old(self).stoppers@,
            final(self).active_count == final(self).active@.len(),
            final(self).stopped == (old(self).stopped || final(self).active@.len() == 0),
            final(self).handler == old(self).handler,
            exists|states: Seq<Seq<TaskEntry<T>>>, ctxs: Seq<TickCtx>, ws: Seq<W>|
                #[trigger] budget_witnessed::<W, T>(
                    old(self).active@ + old(self).spawned@,
                    old(self).stoppers@,
                    old(self).ctx,
                    final(self).ctx,
                    *old(world),
                    *final(world),
                    final(self).active@,
                    extra_passes + 1,
                    states,
                    ctxs,
                    ws,
                ),
            forall|i: int|
                0 <= i < final(self).active@.len() ==> !final(self).stoppers@[(
                #[trigger] final(self).active@[i]).stopper_id as int],
    {
        self.drain_spawned();
        let total: usize = self.active.len();
        let ghost mut states: Seq<Seq<TaskEntry<T>>> = seq![self.active@];
        let ghost mut gctxs: Seq<TickCtx> = seq![self.ctx];
        let ghost mut gws: Seq<W> = seq![*world];
        let mut removed = self.poll_pass(world);
        proof {
            states = states.push(self.active@);
            gctxs = gctxs.push(self.ctx);
            gws = gws.push(*world);
        }
        let mut pass: usize = 0;
        while pass < extra_passes
            invariant
                self.wf(),
                total == old(self).active@.len() + old(self).spawned@.len(),
                self.active@.len() + removed == total,
                self.spawned@.len() == 0,
                self.stoppers@ == old(self).stoppers@,
                self.active_count == old(self).active_count,
                self.stopped == old(self).stopped,
                self.handler == old(self).handler,
                pass <= extra_passes,
                states.len() == pass + 2,
                gctxs.len() == pass + 2,
                gws.len() == pass + 2,
                states[0] == old(self).active@ + old(self).spawned@,
                states[states.len() - 1] == self.active@,
                gctxs[0] == old(self).ctx,
                gctxs[gctxs.len() - 1] == self.ctx,
                gws[0] == *old(world),
                gws[gws.len() - 1] == *world,
                forall|i: int|
                    0 <= i < states.len() - 1 ==> pass_rel::<W, T>(
                        #[trigger] states[i],
                        old(self).stoppers@,
                        gctxs[i],
                        gctxs[i + 1],
                        gws[i],
                        gws[i + 1],
                        states[i + 1],
                    ),
                forall|i: int|
                    0 <= i < self.active@.len() ==> !self.stoppers@[(
                    #[trigger] self.active@[i]).stopper_id as int],
            decreases extra_passes - pass,
        {
            let ghost states_before = states;
            let ghost ctxs_before = gctxs;
            let ghost ws_before = gws;
            let r = self.poll_pass(world);
            proof {
                states = states.push(self.active@);
                gctxs = gctxs.push(self.ctx);
                gws = gws.push(*world);
                assert forall|i: int|
                    0 <= i < states.len() - 1 implies pass_rel::<W, T>(
                    #[trigger] states[i],
                    old(self).stoppers@,
                    gctxs[i],
                    gctxs[i + 1],
                    gws[i],
                    gws[i + 1],
                    states[i + 1],
                ) by {
                    if i < states_before.len() - 1 {
                        assert(states[i] == states_before[i] && states[i + 1] == states_before[i
                            + 1]);
                        assert(gctxs[i] == ctxs_before[i] && gctxs[i + 1] == ctxs_before[i + 1]);
                        assert(gws[i] == ws_before[i] && gws[i + 1] == ws_before[i + 1]);
                    } else {
                        assert(states[i] == states_before[states_before.len() - 1]);
                        assert(gctxs[i] == ctxs_before[ctxs_before.len() - 1]);
                        assert(gws[i] == ws_before[ws_before.len() - 1]);
                    }
                }
            }
            removed = removed + r;
            pass = pass + 1;
        }
        let ghost done = states;
        let ghost done_ctxs = gctxs;
        let ghost done_ws = gws;
        self.finish_tick();
        proof {
            assert(budget_witnessed::<W, T>(
                old(self).active@ + old(self).spawned@,
                old(self).stoppers@,
                old(self).ctx,
                self.ctx,
                *old(world),
                *world,
                self.active@,
                extra_passes + 1,
                done,
                done_ctxs,
                done_ws,
            ));
        }
        removed
    }
}

impl Stopper {
    /// Set the task's cancellation flag. Idempotent; the executor observes it
    /// only after the task's next poll, so removal happens on the next tick's
    /// retain scan, not at once.
    pub fn stop<T>(&self, ex: &mut Executor<T>)
        requires
            self.id < old(ex).stoppers@.len(),
        ensures
            final(ex).stoppers@ == old(ex).stoppers@.update(self.id as int, true),
            final(ex).spawned@ == old(ex).spawned@,
            final(ex).active@ == old(ex).active@,
            final(ex).ctx == old(ex).ctx,
            final(ex).active_count == old(ex).active_count,
            final(ex).stopped == old(ex).stopped,
            final(ex).handler == old(ex).handler,
    {
        self.ex_set(ex);
    }

    /// Whether the flag has been set.
    pub fn stoped<T>(&self, ex: &Executor<T>) -> (b: bool)
        requires
            self.id < ex.stoppers@.len(),
        ensures
            b == ex.stoppers@[self.id as int],
    {
        ex.stoppers[self.id]
    }

    /// Whether the flag is still unset.
    pub fn not_stopped<T>(&self, ex: &Executor<T>) -> (b: bool)
        requires
            self.id < ex.stoppers@.len(),
        ensures
            b == !ex.stoppers@[self.id as int],
    {
        !ex.stoppers[self.id]
    }

    fn ex_set<T>(&self, ex: &mut Executor<T>)
        requires
            self.id < old(ex).stoppers@.len(),
        ensures
            final(ex).stoppers@ == old(ex).stoppers@.update(self.id as int, true),
            final(ex).spawned@ == old(ex).spawned@,
            final(ex).active@ == old(ex).active@,
            final(ex).ctx == old(ex).ctx,
            final(ex).active_count == old(ex).active_count,
            final(ex).stopped == old(ex).stopped,
            final(ex).handler == old(ex).handler,
    {
        let slot = &mut ex.stoppers;
        slot.set(self.id, true);
    }
}

/// Anything that can be polled as a task can spawn itself onto an executor.
pub trait CoroutineSpawn: Sized {
    /// Register the receiver on the executor; same contract as `Executor::spawn`.
    fn spawn(self, ex: &mut Executor<Self>) -> (s: Stopper)
        requires
            old(ex).wf(),
        ensures
            final(ex).wf(),
            s.id == old(ex).stoppers@.len(),
            final(ex).spawned@ == old(ex).spawned@.push(
                (TaskEntry { task: self, stopper_id: old(ex).stoppers@.len() as usize }),
            ),
            final(ex).stoppers@ == old(ex).stoppers@.push(false),
            final(ex).active@ == old(ex).active@,
            final(ex).ctx == old(ex).ctx,
            final(ex).active_count == old(ex).active_count,
            final(ex).stopped == old(ex).stopped,
    ;
}

impl<T> CoroutineSpawn for T {
    fn spawn(self, ex: &mut Executor<T>) -> (s: Stopper) {
        ex.spawn(self)
    }
}

} // verus!
