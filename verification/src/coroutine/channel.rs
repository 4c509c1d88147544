//! A bounded, unsynchronized FIFO channel: non-blocking insert and get, plus
//! polled futures that retry until space or a value appears.

use vstd::prelude::*;

use crate::coroutine::task::TaskPoll;

use std::collections::VecDeque;

verus! {

/// A FIFO queue of values with an optional capacity bound. A limit of zero
/// means no bound.
#[derive(Debug)]
pub struct UnsyncChannel<V> {
    queue: VecDeque<V>,
    limit: usize,
}

/// A pending insert that holds the value it will enqueue. Dropping the future
/// before it completes drops the held value normally; nothing is leaked and
/// the channel is left as it was.
#[derive(Debug)]
pub struct InsertFuture<V> {
    value: Option<V>,
}

/// A pending receive: resolves to the front value once one is there.
#[derive(Clone, Copy, Debug)]
pub struct GetFuture;

impl<V> UnsyncChannel<V> {
    /// The queued values, front first.
    pub closed spec fn contents(&self) -> Seq<V> {
        self.queue@
    }

    /// The capacity bound; zero means unbounded.
    pub closed spec fn spec_limit(&self) -> usize {
        self.limit
    }

    /// Whether the channel is at capacity, so that an insert would be turned
    /// away.
    pub open spec fn is_full(&self) -> bool {
        self.spec_limit() > 0 && self.contents().len() >= self.spec_limit()
    }

    /// The channel never holds more than its bound.
    pub open spec fn wf(&self) -> bool {
        self.spec_limit() > 0 ==> self.contents().len() <= self.spec_limit()
    }

    /// An empty channel bounded at `limit` values; `limit` zero means no
    /// bound.
    pub fn new(limit: usize) -> (c: UnsyncChannel<V>)
        ensures
            c.wf(),
            c.contents() == Seq::<V>::empty(),
            c.spec_limit() == limit,
    {
        UnsyncChannel { queue: VecDeque::new(), limit }
    }

    /// How many values are queued.
    pub fn len(&self) -> (n: usize)
        ensures
            n == self.contents().len(),
    {
        self.queue.len()
    }

    /// The capacity bound; zero means unbounded.
    pub fn limit(&self) -> (n: usize)
        ensures
            n == self.spec_limit(),
    {
        self.limit
    }

    /// Enqueue `value` at the back, unless the channel is at capacity, in
    /// which case the value comes straight back to the caller.
    pub fn try_insert(&mut self, value: V) -> (r: Option<V>)
        requires
            old(self).wf(),
        ensures
            final(self).wf(),
            final(self).spec_limit() == old(self).spec_limit(),
            r is Some <==> old(self).is_full(),
            r matches Some(v) ==> v == value && final(self).contents() == old(self).contents(),
            r is None ==> final(self).contents() == old(self).contents().push(value),
    {
        if self.limit > 0 {
            if self.queue.len() >= self.limit {
                Some(value)
            } else {
                self.queue.push_back(value);
                None
            }
        } else {
            self.queue.push_back(value);
            None
        }
    }

    /// Dequeue the front value, or `None` if the channel is empty.
    pub fn try_get(&mut self) -> (r: Option<V>)
        requires
            old(self).wf(),
        ensures
            final(self).wf(),
            final(self).spec_limit() == old(self).spec_limit(),
            r is Some <==> old(self).contents().len() > 0,
            r matches Some(v) ==> v == old(self).contents()[0] && final(self).contents() == old(self).contents().drop_first(),
            r is None ==> final(self).contents() == old(self).contents(),
    {
        let r = self.queue.pop_front();
        proof {
            if old(self).contents().len() > 0 {
                assert(final(self).contents() =~= old(self).contents().drop_first());
            }
        }
        r
    }

    /// Begin a blocking receive: the returned future retries `try_get` on
    /// every poll until a value appears.
    pub fn get(&self) -> (f: GetFuture) {
        GetFuture
    }

    /// Begin a blocking insert: the returned future holds `value` and retries
    /// `try_insert` on every poll until there is room.
    pub fn insert(&self, value: V) -> (f: InsertFuture<V>)
        ensures
            f.holds() && f.spec_value() == value,
    {
        InsertFuture { value: Some(value) }
    }
}

/// First-in, first-out: of two values in the queue, the one whose insert
/// succeeded earlier stands nearer the front, so it is dequeued first;
/// `try_insert` appends at the back and `try_get` takes from the front.
pub proof fn lemma_fifo_order<V>(s: Seq<V>, a: V, b: V)
    ensures
        s.push(a).push(b)[s.len() as int] == a,
        s.push(a).push(b)[s.len() as int + 1] == b,
        s.push(a).push(b).len() == s.len() + 2,
{
}

impl<V> InsertFuture<V> {
    /// Whether the future still holds its value; once the insert succeeds the
    /// future is consumed and must not be polled again.
    pub closed spec fn holds(&self) -> bool {
        self.value is Some
    }

    /// The value waiting to be enqueued.
    pub closed spec fn spec_value(&self) -> V {
        self.value->0
    }

    /// One poll of a pending insert: the held value goes to the back of the
    /// queue exactly when the channel is below its bound; otherwise the
    /// future keeps the value and stays pending.
    pub fn poll(&mut self, channel: &mut UnsyncChannel<V>) -> (r: TaskPoll<()>)
        requires
            old(self).holds(),
            old(channel).wf(),
        ensures
            final(channel).wf(),
            final(channel).spec_limit() == old(channel).spec_limit(),
            r is Ready <==> !old(channel).is_full(),
            r is Ready ==> final(channel).contents() == old(channel).contents().push(
                old(self).spec_value(),
            ) && !final(self).holds(),
            r is Pending ==> final(channel).contents() == old(channel).contents() && final(self).holds() && final(self).spec_value() == old(self).spec_value(),
    {
        let value = self.value.take().unwrap();
        match channel.try_insert(value) {
            Some(value) => {
                self.value = Some(value);
                TaskPoll::Pending
            },
            None => TaskPoll::Ready(()),
        }
    }
}

impl GetFuture {
    /// One poll of a pending receive: the front value comes out exactly when
    /// the channel is not empty.
    pub fn poll<V>(&mut self, channel: &mut UnsyncChannel<V>) -> (r: TaskPoll<V>)
        requires
            old(channel).wf(),
        ensures
            final(channel).wf(),
            final(channel).spec_limit() == old(channel).spec_limit(),
            r is Ready <==> old(channel).contents().len() > 0,
            r matches TaskPoll::Ready(v) ==> v == old(channel).contents()[0] && final(channel).contents() == old(channel).contents().drop_first(),
            r is Pending ==> final(channel).contents() == old(channel).contents(),
    {
        match channel.try_get() {
            Some(v) => TaskPoll::Ready(v),
            None => TaskPoll::Pending,
        }
    }
}

} // verus!
