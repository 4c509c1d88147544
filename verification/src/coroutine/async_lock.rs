//! A cooperative mutex: mutual exclusion over a value shared across tasks of
//! one single-threaded executor, acquired by polling.

use vstd::prelude::*;

use crate::coroutine::task::TaskPoll;

verus! {

/// A value guarded by a cooperative lock. While no guard is out, the lock
/// holds the value; acquiring moves it into the guard, releasing moves it
/// back.
#[derive(Debug)]
pub struct AsyncLock<T> {
    data: Option<T>,
}

/// Exclusive access to the locked value. At most one guard of a lock exists
/// at a time: a guard comes only out of an acquire, which empties the lock,
/// and only giving the guard back through `unlock` fills it again. Release
/// is explicit, never by drop: a task that is cancelled while holding the
/// guard, and so never reaches its `unlock`, leaves the lock held for good.
#[derive(Debug)]
pub struct AsyncLockGuard<T> {
    value: T,
}

/// A pending acquire: resolves to a guard once no other guard is out.
#[derive(Clone, Copy, Debug)]
pub struct LockFuture;

impl<T> AsyncLock<T> {
    /// Whether a guard is currently out.
    pub closed spec fn is_locked(&self) -> bool {
        self.data is None
    }

    /// The value the lock holds, when no guard is out.
    pub closed spec fn spec_data(&self) -> Option<T> {
        self.data
    }

    /// An unlocked lock holding `value`.
    pub fn new(value: T) -> (l: AsyncLock<T>)
        ensures
            !l.is_locked(),
            l.spec_data() == Some(value),
    {
        AsyncLock { data: Some(value) }
    }

    /// Begin acquiring: the returned future resolves to the guard once no
    /// other guard is out.
    pub fn lock(&self) -> (f: LockFuture) {
        LockFuture
    }

    /// Give a guard back, releasing the lock with the value the guard holds.
    pub fn unlock(&mut self, guard: AsyncLockGuard<T>)
        ensures
            !final(self).is_locked(),
            final(self).spec_data() == Some(guard.spec_value()),
    {
        self.data = Some(guard.into_inner());
    }
}

impl<T> AsyncLockGuard<T> {
    /// The value the guard gives access to.
    pub closed spec fn spec_value(&self) -> T {
        self.value
    }

    /// Read the guarded value.
    pub fn get(&self) -> (v: &T)
        ensures
            v == self.spec_value(),
    {
        &self.value
    }

    /// Write access to the guarded value.
    pub fn get_mut(&mut self) -> (v: &mut T)
        ensures
            *v == old(self).spec_value(),
            final(self).spec_value() == *final(v),
    {
        &mut self.value
    }

    /// Replace the guarded value.
    pub fn set(&mut self, value: T)
        ensures
            final(self).spec_value() == value,
    {
        self.value = value;
    }

    /// Take the guarded value out, consuming the guard. The lock stays locked
    /// for good: only `unlock` releases it.
    pub fn into_inner(self) -> (v: T)
        ensures
            v == self.spec_value(),
    {
        self.value
    }
}

/// One poll of a pending acquire, seen at the level of lock states: `got`
/// says whether a guard came out.
pub open spec fn acquire_step<T>(pre: AsyncLock<T>, post: AsyncLock<T>, got: bool) -> bool {
    &&& got <==> !pre.is_locked()
    &&& got ==> post.is_locked()
    &&& !got ==> post == pre
}

/// A locked lock stays locked along any run of acquire polls.
proof fn lemma_stays_locked<T>(states: Seq<AsyncLock<T>>, got: Seq<bool>, j: int, k: int)
    requires
        got.len() + 1 == states.len(),
        forall|i: int|
            0 <= i < got.len() ==> acquire_step(#[trigger] states[i], states[i + 1], got[i]),
        0 <= j <= k < states.len(),
        states[j].is_locked(),
    ensures
        states[k].is_locked(),
    decreases k - j,
{
    if k > j {
        lemma_stays_locked(states, got, j, k - 1);
        assert(acquire_step(states[k - 1], states[k], got[k - 1]));
    }
}

/// Mutual exclusion at any interleaving depth: along any run of acquire
/// polls on one lock — however many pending futures take part, in whatever
/// order they are polled — once one poll hands a guard out, no later poll
/// in the run hands one out, for as long as nothing is given back.
pub proof fn lemma_mutual_exclusion<T>(states: Seq<AsyncLock<T>>, got: Seq<bool>, j: int, k: int)
    requires
        got.len() + 1 == states.len(),
        forall|i: int|
            0 <= i < got.len() ==> acquire_step(#[trigger] states[i], states[i + 1], got[i]),
        0 <= j < k < got.len(),
        got[j],
    ensures
        !got[k],
{
    assert(acquire_step(states[j], states[j + 1], got[j]));
    lemma_stays_locked(states, got, j + 1, k);
    assert(acquire_step(states[k], states[k + 1], got[k]));
}

impl LockFuture {
    /// One poll of a pending acquire. Mutual exclusion is the contract: the
    /// guard comes out exactly when no other guard is out, and a locked lock
    /// is left untouched, so two guards of one lock can never be live at
    /// once.
    pub fn poll<T>(&mut self, lock: &mut AsyncLock<T>) -> (r: TaskPoll<AsyncLockGuard<T>>)
        ensures
            r is Ready <==> !old(lock).is_locked(),
            old(lock).is_locked() ==> *final(lock) == *old(lock),
            !old(lock).is_locked() ==> final(lock).is_locked(),
            r matches TaskPoll::Ready(g) ==> Some(g.spec_value()) == old(lock).spec_data(),
            acquire_step(*old(lock), *final(lock), r is Ready),
    {
        match lock.data.take() {
            Some(value) => TaskPoll::Ready(AsyncLockGuard { value }),
            None => TaskPoll::Pending,
        }
    }
}

} // verus!
