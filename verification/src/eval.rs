//! Running a script in the host's scripting context: a task submits the
//! script, then polls until the host reports the result values.

use vstd::prelude::*;

use crate::coroutine::{Coroutine, TaskPoll, TickCtx};
use crate::lua_api::ImportQueue;

verus! {

/// The host's single evaluation slot, as the task side sees it: idle, running
/// a script, or holding finished result values. The host driver takes the
/// submitted script, runs it, and puts the results back.
#[derive(Debug)]
pub struct EvalHost {
    /// A script has been accepted and is not finished yet.
    pub running: bool,
    /// The accepted script, until the driver picks it up.
    pub script: Option<String>,
    /// The finished script's result values, until the submitter collects
    /// them.
    pub result: Option<ImportQueue>,
}

impl EvalHost {
    /// Whether the slot can accept a script.
    pub open spec fn is_idle(&self) -> bool {
        !self.running && self.result is None
    }

    /// An idle slot.
    pub fn new() -> (h: EvalHost)
        ensures
            h.is_idle(),
            h.script is None,
    {
        EvalHost { running: false, script: None, result: None }
    }

    /// The driver's side: pick up the submitted script to run it.
    pub fn take_script(&mut self) -> (s: Option<String>)
        ensures
            s == old(self).script,
            final(self).script is None,
            final(self).running == old(self).running,
            final(self).result == old(self).result,
    {
        self.script.take()
    }

    /// The driver's side: report the finished script's result values.
    pub fn finish(&mut self, values: ImportQueue)
        requires
            old(self).running,
        ensures
            !final(self).running,
            final(self).result == Some(values),
            final(self).script == old(self).script,
    {
        self.running = false;
        self.result = Some(values);
    }
}

/// A pending evaluation: holds the script until the host slot is free, then
/// waits for the result values.
#[derive(Debug)]
pub struct EvalFuture {
    /// The script, until the slot accepts it.
    pub script: Option<String>,
}

/// Run a script in the host's scripting context; the future resolves to the
/// values the script returned.
pub fn eval(s: &str) -> (f: EvalFuture)
    ensures
        f.script matches Some(sc) && sc@ == s@,
{
    EvalFuture { script: Some(s.to_owned()) }
}

/// Run a script in the host's scripting context for its effect alone; the
/// returned values, if any, can be ignored.
pub fn exec(s: &str) -> (f: EvalFuture)
    ensures
        f.script matches Some(sc) && sc@ == s@,
{
    eval(s)
}

impl EvalFuture {
    /// One poll: submit the script once the slot is idle, then stay pending
    /// until the slot holds the result values, which resolve the future.
    pub fn poll(&mut self, host: &mut EvalHost) -> (r: TaskPoll<ImportQueue>)
        ensures
            old(self).script is Some && old(host).is_idle() ==> r is Pending && final(self).script is None && final(host).running && final(host).script == old(self).script
                && final(host).result is None,
            old(self).script is Some && !old(host).is_idle() ==> r is Pending && *final(self)
                == *old(self) && *final(host) == *old(host),
            old(self).script is None && old(host).result is None ==> r is Pending && *final(self)
                == *old(self) && *final(host) == *old(host),
            old(self).script is None && old(host).result is Some ==> (r matches TaskPoll::Ready(q)
                && Some(q) == old(host).result) && final(host).result is None && final(host).running
                == old(host).running && final(host).script == old(host).script && *final(self)
                == *old(self),
    {
        if self.script.is_some() {
            if !host.running && host.result.is_none() {
                host.script = self.script.take();
                host.running = true;
            }
            return TaskPoll::Pending;
        }
        match host.result.take() {
            Some(values) => TaskPoll::Ready(values),
            None => TaskPoll::Pending,
        }
    }
}

impl Coroutine<EvalHost> for EvalFuture {
    type Output = ImportQueue;

    /// The slot protocol in full: an idle slot takes the held script; a busy
    /// one changes nothing; finished result values resolve the future. The
    /// tick context is never touched.
    open spec fn poll_rel(
        pre: Self,
        post: Self,
        c0: TickCtx,
        c1: TickCtx,
        w0: EvalHost,
        w1: EvalHost,
        r: TaskPoll<ImportQueue>,
    ) -> bool {
        &&& c1 == c0
        &&& pre.script is Some && w0.is_idle() ==> r is Pending && post.script is None
            && w1.running && w1.script == pre.script && w1.result is None
        &&& pre.script is Some && !w0.is_idle() ==> r is Pending && post == pre && w1 == w0
        &&& pre.script is None && w0.result is None ==> r is Pending && post == pre && w1 == w0
        &&& pre.script is None && w0.result is Some ==> (r matches TaskPoll::Ready(q) && Some(q)
            == w0.result) && w1.result is None && w1.running == w0.running && w1.script
            == w0.script && post == pre
    }

    fn poll_task(&mut self, _ctx: &mut TickCtx, world: &mut EvalHost) -> (r: TaskPoll<ImportQueue>) {
        self.poll(world)
    }
}

} // verus!
