use cc_wasm_api::coroutine::{Clock, Executor, SleepFuture, TaskPoll};
use cc_wasm_api::eval::{eval, exec, EvalHost};
use cc_wasm_api::lua_api::{ImportQueue, Importable, LuaValue};

/// A script goes to the host once the slot is free; the result values come
/// back and decode.
#[test]
fn eval_roundtrip() {
    let mut host = EvalHost::new();
    let mut fut = eval("return 1 + 1");

    assert!(matches!(fut.poll(&mut host), TaskPoll::Pending));
    assert!(host.running);
    assert_eq!(host.take_script().as_deref(), Some("return 1 + 1"));

    // nothing to collect until the host finishes
    assert!(matches!(fut.poll(&mut host), TaskPoll::Pending));

    let mut values = ImportQueue::new();
    values.push_value(LuaValue::I32(2));
    host.finish(values);

    match fut.poll(&mut host) {
        TaskPoll::Ready(mut q) => assert_eq!(i32::import(&mut q).unwrap(), 2),
        TaskPoll::Pending => panic!("the result was there to collect"),
    }
    assert!(host.result.is_none());
}

/// A second script waits until the slot is idle again.
#[test]
fn eval_waits_for_the_slot() {
    let mut host = EvalHost::new();
    let mut first = exec("print(1)");
    let mut second = exec("print(2)");

    assert!(matches!(first.poll(&mut host), TaskPoll::Pending));
    // the slot is taken: the second script is not handed over
    assert!(matches!(second.poll(&mut host), TaskPoll::Pending));
    assert_eq!(host.take_script().as_deref(), Some("print(1)"));
    assert!(host.running);

    host.finish(ImportQueue::new());
    assert!(matches!(first.poll(&mut host), TaskPoll::Ready(_)));

    // now the slot is free for the second script
    assert!(matches!(second.poll(&mut host), TaskPoll::Pending));
    assert_eq!(host.take_script().as_deref(), Some("print(2)"));
}

/// A world with a clock that the test moves by hand.
struct TimedWorld {
    now: u64,
}

impl Clock for TimedWorld {
    fn now_ms(&self) -> u64 {
        self.now
    }
}

/// Sleeps resolve once the clock has moved past the duration, polled by the
/// executor like any other task.
#[test]
fn sleep_follows_the_clock() {
    let mut world = TimedWorld { now: 1000 };
    let mut ex: Executor<SleepFuture> = Executor::new();
    ex.spawn(cc_wasm_api::coroutine::sleep(50, world.now));

    ex.tick(&mut world);
    assert_eq!(ex.coroutines(), 1);
    world.now = 1050; // not yet past the duration
    ex.tick(&mut world);
    assert_eq!(ex.coroutines(), 1);
    world.now = 1051;
    ex.tick(&mut world);
    assert_eq!(ex.coroutines(), 0);
    assert!(ex.get_stopped());
}

/// A direct poll of a sleep against chosen clock readings.
#[test]
fn sleep_poll_is_strict() {
    let f = cc_wasm_api::coroutine::sleep(10, 100);
    assert!(matches!(f.poll(100), TaskPoll::Pending));
    assert!(matches!(f.poll(110), TaskPoll::Pending));
    assert!(matches!(f.poll(111), TaskPoll::Ready(())));
    // a clock running backwards reads as not yet elapsed
    assert!(matches!(f.poll(50), TaskPoll::Pending));
}

/// An eval future driven as an executor task against an `EvalHost` world.
#[test]
fn eval_runs_under_the_executor() {
    let mut host = EvalHost::new();
    let mut ex: Executor<cc_wasm_api::eval::EvalFuture> = Executor::new();
    ex.spawn(eval("return 5"));

    ex.tick(&mut host);
    assert_eq!(ex.coroutines(), 1);
    let script = host.take_script();
    assert_eq!(script.as_deref(), Some("return 5"));
    let mut values = ImportQueue::new();
    values.push_value(LuaValue::I32(5));
    host.finish(values);

    ex.tick(&mut host);
    assert_eq!(ex.coroutines(), 0);
}
