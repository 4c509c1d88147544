use cc_wasm_api::coroutine::{
    block_on_no_alloc, block_on_no_alloc_limited, block_on_no_alloc_stopable, yield_now,
    BlocedFuture, Coroutine, Executor, TaskPoll, TickCtx, YieldFuture,
};

/// A task fabricated for the tests: completes after a chosen number of
/// pending polls, or never.
enum TestTask {
    /// Ready on the first poll.
    Quick,
    /// Yields twice, then completes: three polls in all.
    TwoYields(YieldFuture, YieldFuture),
    /// Never completes.
    Forever,
}

impl Coroutine<()> for TestTask {
    type Output = ();

    fn poll_task(&mut self, ctx: &mut TickCtx, _world: &mut ()) -> TaskPoll<()> {
        match self {
            TestTask::Quick => TaskPoll::Ready(()),
            TestTask::TwoYields(first, second) => match first.poll(ctx) {
                TaskPoll::Pending => TaskPoll::Pending,
                TaskPoll::Ready(()) => second.poll(ctx),
            },
            TestTask::Forever => TaskPoll::Pending,
        }
    }
}

/// Task A completes after one poll, task B yields twice (three polls), task
/// C is cancelled before any tick: after one tick only B is live, and once B
/// finishes the stop flag rises.
#[test]
fn spawn_cancel_scenario() {
    let mut ex: Executor<TestTask> = Executor::new();
    let _a = ex.spawn(TestTask::Quick);
    let _b = ex.spawn(TestTask::TwoYields(yield_now(), yield_now()));
    let c = ex.spawn(TestTask::Forever);
    c.stop(&mut ex);
    assert_eq!(ex.coroutines(), 0); // not ticked yet; the count is stale

    ex.tick(&mut ());
    assert_eq!(ex.coroutines(), 1); // only B, mid-yield
    assert!(!ex.get_stopped());

    // a tick with a budget of one extra pass polls B twice more
    ex.tick_budget(&mut (), 1);
    assert_eq!(ex.coroutines(), 0);
    assert!(ex.get_stopped());
}

/// Cancellation is observed only after the task's next poll: the flag set
/// during one tick removes the task on the following one.
#[test]
fn cancellation_is_lazy() {
    let mut ex: Executor<TestTask> = Executor::new();
    let s = ex.spawn(TestTask::Forever);
    ex.tick(&mut ());
    assert_eq!(ex.coroutines(), 1);
    s.stop(&mut ex);
    assert!(s.stoped(&ex));
    assert!(!s.not_stopped(&ex));
    assert_eq!(ex.coroutines(), 1); // still counted until the next tick
    ex.tick(&mut ());
    assert_eq!(ex.coroutines(), 0);
    assert!(ex.get_stopped());
}

/// The active count after a tick equals the spawned tasks minus those that
/// completed or were cancelled.
#[test]
fn active_count_accounts_for_all_tasks() {
    let mut ex: Executor<TestTask> = Executor::new();
    for _ in 0..3 {
        ex.spawn(TestTask::Forever);
    }
    let x = ex.spawn(TestTask::Quick);
    let y = ex.spawn(TestTask::Forever);
    let _ = x;
    y.stop(&mut ex);
    let removed = ex.tick(&mut ());
    assert_eq!(removed, 2); // the quick one and the cancelled one
    assert_eq!(ex.coroutines(), 3);
}

/// Tasks spawned while others run join on the next tick; the spawn staging
/// queue is drained before polling.
#[test]
fn spawned_tasks_run_from_next_tick() {
    let mut ex: Executor<TestTask> = Executor::new();
    ex.spawn(TestTask::Forever);
    ex.tick(&mut ());
    assert_eq!(ex.coroutines(), 1);
    ex.spawn(TestTask::Forever);
    assert_eq!(ex.coroutines(), 1);
    ex.tick(&mut ());
    assert_eq!(ex.coroutines(), 2);
}

/// Each yield is counted once, and the counter can be cleared.
#[test]
fn yield_counter_counts_yields() {
    let mut ex: Executor<TestTask> = Executor::new();
    ex.spawn(TestTask::TwoYields(yield_now(), yield_now()));
    ex.tick(&mut ());
    assert_eq!(ex.yield_counter(), 1);
    ex.tick(&mut ());
    assert_eq!(ex.yield_counter(), 2);
    ex.tick(&mut ());
    assert_eq!(ex.yield_counter(), 2); // the third poll completes, no yield
    assert_eq!(ex.coroutines(), 0);
    ex.clear_yield_counter();
    assert_eq!(ex.yield_counter(), 0);
}

/// The stop flag can be raised by hand, ahead of the task set draining.
#[test]
fn stop_raises_the_flag() {
    let mut ex: Executor<TestTask> = Executor::new();
    ex.spawn(TestTask::Forever);
    ex.tick(&mut ());
    assert!(!ex.get_stopped());
    ex.stop();
    assert!(ex.get_stopped());
}

/// The trait form of spawning registers the task just as `Executor::spawn`
/// does.
#[test]
fn spawn_through_trait() {
    let mut ex: Executor<TestTask> = Executor::new();
    let s = cc_wasm_api::coroutine::CoroutineSpawn::spawn(TestTask::Forever, &mut ex);
    ex.tick(&mut ());
    assert_eq!(ex.coroutines(), 1);
    s.stop(&mut ex);
    ex.tick(&mut ());
    assert_eq!(ex.coroutines(), 0);
}

/// The blocking drivers poll a task to completion, within their allowances.
#[test]
fn blocking_drivers() {
    let mut ctx = TickCtx::new();

    let done = block_on_no_alloc(TestTask::TwoYields(yield_now(), yield_now()), &mut ctx, &mut ());
    assert_eq!(done, Some(()));

    // three polls needed, two pendings allowed: just enough
    let done =
        block_on_no_alloc_limited(TestTask::TwoYields(yield_now(), yield_now()), 2, &mut ctx, &mut ());
    assert_eq!(done, Some(()));

    // one pending allowed: not enough
    let done =
        block_on_no_alloc_limited(TestTask::TwoYields(yield_now(), yield_now()), 1, &mut ctx, &mut ());
    assert_eq!(done, None);

    let done = block_on_no_alloc_stopable(TestTask::Forever, &mut ctx, &mut (), |_w| true);
    assert_eq!(done, None);

    let done = TestTask::Quick.block_on(&mut ctx, &mut ());
    assert_eq!(done, Some(()));
    let done = TestTask::Forever.block_on_limited(10, &mut ctx, &mut ());
    assert_eq!(done, None);
}
