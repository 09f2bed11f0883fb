//! The decision core of a bounded FIFO channel: its queue, and the handles
//! of the senders and receivers waiting on it.
use vstd::prelude::*;

use std::collections::VecDeque;

use crate::waker_set::{WakerSet, is_lowest_key};

verus! {

/// A bounded FIFO queue with a waiter set for blocked senders and one for
/// blocked receivers.
pub struct Channel<T, W> {
    pub(crate) queue: VecDeque<T>,
    pub(crate) cap: usize,
    pub(crate) send_waiters: WakerSet<W>,
    pub(crate) recv_waiters: WakerSet<W>,
}

impl<T, W> Channel<T, W> {
    /// The queued messages, oldest first.
    pub closed spec fn view(&self) -> Seq<T> {
        self.queue@
    }

    pub closed spec fn spec_capacity(&self) -> nat {
        self.cap as nat
    }

    pub closed spec fn spec_send_waiters(&self) -> WakerSet<W> {
        self.send_waiters
    }

    pub closed spec fn spec_recv_waiters(&self) -> WakerSet<W> {
        self.recv_waiters
    }

    /// The queue never holds more than its capacity, and both waiter sets
    /// are well formed.
    pub open spec fn wf(&self) -> bool {
        &&& self@.len() <= self.spec_capacity()
        &&& self.spec_send_waiters().wf()
        &&& self.spec_recv_waiters().wf()
    }

    /// What `try_send(v)` does: with room left, `v` joins the back of the
    /// queue and the lowest-keyed waiting receiver is named for waking;
    /// on a full queue `v` comes back and nothing changes.
    pub open spec fn send_post(self, after: Self, v: T, r: Result<Option<usize>, T>) -> bool {
        &&& after.spec_capacity() == self.spec_capacity()
        &&& after.spec_send_waiters() == self.spec_send_waiters()
        &&& after.spec_recv_waiters() == self.spec_recv_waiters()
        &&& if self@.len() < self.spec_capacity() {
            &&& r matches Ok(w) && is_lowest_key(self.spec_recv_waiters()@, w)
            &&& after@ == self@.push(v)
        } else {
            &&& r == Err::<Option<usize>, T>(v)
            &&& after@ == self@
        }
    }

    /// What `try_recv()` does: a non-empty queue gives up its oldest
    /// message and the lowest-keyed waiting sender is named for waking; an
    /// empty queue gives `None` and nothing changes.
    pub open spec fn recv_post(self, after: Self, r: Option<(T, Option<usize>)>) -> bool {
        &&& after.spec_capacity() == self.spec_capacity()
        &&& after.spec_send_waiters() == self.spec_send_waiters()
        &&& after.spec_recv_waiters() == self.spec_recv_waiters()
        &&& if self@.len() > 0 {
            &&& r matches Some((v, w)) && v == self@[0] && is_lowest_key(
                self.spec_send_waiters()@,
                w,
            )
            &&& after@ == self@.drop_first()
        } else {
            &&& r is None
            &&& after@ == self@
        }
    }

    /// An empty channel holding at most `capacity` messages, with room for
    /// `waiters` blocked senders and as many blocked receivers.
    pub fn new(capacity: usize, waiters: usize) -> (r: Self)
        ensures
            r.wf(),
            r@ == Seq::<T>::empty(),
            r.spec_capacity() == capacity,
            r.spec_send_waiters()@ == Seq::<Option<W>>::empty(),
            r.spec_recv_waiters()@ == Seq::<Option<W>>::empty(),
            r.spec_send_waiters().spec_capacity() == waiters,
            r.spec_recv_waiters().spec_capacity() == waiters,
    {
        Channel {
            queue: VecDeque::new(),
            cap: capacity,
            send_waiters: WakerSet::new(waiters),
            recv_waiters: WakerSet::new(waiters),
        }
    }

    /// The number of queued messages.
    pub fn len(&self) -> (r: usize)
        ensures
            r == self@.len(),
    {
        self.queue.len()
    }

    pub fn capacity(&self) -> (r: usize)
        ensures
            r == self.spec_capacity(),
    {
        self.cap
    }

    /// Queues `v` if there is room, naming a waiting receiver to wake;
    /// hands `v` back when the queue is full.
    pub fn try_send(&mut self, v: T) -> (r: Result<Option<usize>, T>)
        requires
            old(self).wf(),
        ensures
            final(self).wf(),
            old(self).send_post(*final(self), v, r),
    {
        if self.queue.len() < self.cap {
            self.queue.push_back(v);
            Ok(self.recv_waiters.wake_one())
        } else {
            Err(v)
        }
    }

    /// Takes the oldest message if there is one, naming a waiting sender to
    /// wake now that a place is free.
    pub fn try_recv(&mut self) -> (r: Option<(T, Option<usize>)>)
        requires
            old(self).wf(),
        ensures
            final(self).wf(),
            old(self).recv_post(*final(self), r),
    {
        match self.queue.pop_front() {
            Some(v) => Some((v, self.send_waiters.wake_one())),
            None => None,
        }
    }

    /// Registers a sender that found the queue full.
    pub fn register_sender(&mut self, handle: W) -> (r: Result<usize, W>)
        requires
            old(self).wf(),
        ensures
            final(self).wf(),
            final(self)@ == old(self)@,
            final(self).spec_capacity() == old(self).spec_capacity(),
            final(self).spec_recv_waiters() == old(self).spec_recv_waiters(),
            old(self).spec_send_waiters().register_post(final(self).spec_send_waiters(), handle, r),
    {
        self.send_waiters.register(handle)
    }

    /// Registers a receiver that found the queue empty.
    pub fn register_receiver(&mut self, handle: W) -> (r: Result<usize, W>)
        requires
            old(self).wf(),
        ensures
            final(self).wf(),
            final(self)@ == old(self)@,
            final(self).spec_capacity() == old(self).spec_capacity(),
            final(self).spec_send_waiters() == old(self).spec_send_waiters(),
            old(self).spec_recv_waiters().register_post(final(self).spec_recv_waiters(), handle, r),
    {
        self.recv_waiters.register(handle)
    }

    /// Withdraws the waiting sender under `key`, on completion or
    /// cancellation.
    pub fn cancel_send(&mut self, key: usize) -> (r: Option<W>)
        requires
            old(self).wf(),
        ensures
            final(self).wf(),
            final(self)@ == old(self)@,
            final(self).spec_capacity() == old(self).spec_capacity(),
            final(self).spec_recv_waiters() == old(self).spec_recv_waiters(),
            old(self).spec_send_waiters().deregister_post(final(self).spec_send_waiters(), key, r),
    {
        self.send_waiters.deregister(key)
    }

    /// Withdraws the waiting receiver under `key`, on completion or
    /// cancellation.
    pub fn cancel_recv(&mut self, key: usize) -> (r: Option<W>)
        requires
            old(self).wf(),
        ensures
            final(self).wf(),
            final(self)@ == old(self)@,
            final(self).spec_capacity() == old(self).spec_capacity(),
            final(self).spec_send_waiters() == old(self).spec_send_waiters(),
            old(self).spec_recv_waiters().deregister_post(final(self).spec_recv_waiters(), key, r),
    {
        self.recv_waiters.deregister(key)
    }

    /// The waiting sender's handle under `key`.
    pub fn sender(&self, key: usize) -> (r: &W)
        requires
            key < self.spec_send_waiters()@.len(),
            self.spec_send_waiters()@[key as int] is Some,
        ensures
            Some(*r) == self.spec_send_waiters()@[key as int],
    {
        self.send_waiters.get(key)
    }

    /// The waiting receiver's handle under `key`.
    pub fn receiver(&self, key: usize) -> (r: &W)
        requires
            key < self.spec_recv_waiters()@.len(),
            self.spec_recv_waiters()@[key as int] is Some,
        ensures
            Some(*r) == self.spec_recv_waiters()@[key as int],
    {
        self.recv_waiters.get(key)
    }
}

/// Three messages sent into an empty channel with room for them come out
/// of three receptions in the order they were sent.
pub proof fn lemma_fifo<T, W>(
    c0: Channel<T, W>,
    c1: Channel<T, W>,
    c2: Channel<T, W>,
    c3: Channel<T, W>,
    c4: Channel<T, W>,
    c5: Channel<T, W>,
    c6: Channel<T, W>,
    a: T,
    b: T,
    c: T,
    s1: Result<Option<usize>, T>,
    s2: Result<Option<usize>, T>,
    s3: Result<Option<usize>, T>,
    r1: Option<(T, Option<usize>)>,
    r2: Option<(T, Option<usize>)>,
    r3: Option<(T, Option<usize>)>,
)
    requires
        c0@.len() == 0,
        c0.spec_capacity() >= 3,
        c0.send_post(c1, a, s1),
        c1.send_post(c2, b, s2),
        c2.send_post(c3, c, s3),
        c3.recv_post(c4, r1),
        c4.recv_post(c5, r2),
        c5.recv_post(c6, r3),
    ensures
        s1 is Ok && s2 is Ok && s3 is Ok,
        r1 matches Some((x, _)) && x == a,
        r2 matches Some((x, _)) && x == b,
        r3 matches Some((x, _)) && x == c,
        c6@.len() == 0,
{
}

/// A sender that finds the queue full gets its message back; once one
/// message is received the send goes through, and the message is queued
/// behind all that were waiting before it.
pub proof fn lemma_backpressure<T, W>(
    c0: Channel<T, W>,
    c1: Channel<T, W>,
    c2: Channel<T, W>,
    c3: Channel<T, W>,
    v: T,
    s1: Result<Option<usize>, T>,
    r: Option<(T, Option<usize>)>,
    s2: Result<Option<usize>, T>,
)
    requires
        c0.wf(),
        c0.spec_capacity() > 0,
        c0@.len() == c0.spec_capacity(),
        c0.send_post(c1, v, s1),
        c1.recv_post(c2, r),
        c2.send_post(c3, v, s2),
    ensures
        s1 == Err::<Option<usize>, T>(v),
        r matches Some((x, _)) && x == c0@[0],
        s2 is Ok,
        c3@ == c0@.drop_first().push(v),
{
}

} // verus!
