//! The decision core of a cooperative mutex: who holds the lock, who
//! waits for it, and whom to wake on release.
use vstd::prelude::*;

use crate::slab::occupied_count;
use crate::waker_set::{WakerSet, is_lowest_key};

verus! {

/// What a lock attempt came to.
pub enum LockPoll<W> {
    /// The lock was free and is now held by the caller.
    Acquired,
    /// The lock is held; the caller's handle waits under this key.
    Waiting(usize),
    /// The lock is held and no waiter slot is left; the handle comes back.
    Rejected(W),
}

/// A lock around a value, with the handles of the tasks waiting for it.
///
/// Release policy: unlocking always frees the lock and names the waiter
/// with the lowest key to wake. The woken task takes the lock when it is
/// next polled, unless another task has locked it first, in which case it
/// waits again.
pub struct Mutex<T, W> {
    pub(crate) locked: bool,
    pub(crate) value: T,
    pub(crate) waiters: WakerSet<W>,
}

impl<T, W> Mutex<T, W> {
    pub closed spec fn spec_locked(&self) -> bool {
        self.locked
    }

    pub closed spec fn spec_value(&self) -> T {
        self.value
    }

    pub closed spec fn spec_waiters(&self) -> WakerSet<W> {
        self.waiters
    }

    pub closed spec fn wf(&self) -> bool {
        self.waiters.wf()
    }

    /// What `lock(h)` does: a free lock is taken at once; a held lock keeps
    /// its holder and `h` is registered as a waiter, or handed back when no
    /// slot is left.
    pub open spec fn lock_post(self, after: Self, h: W, r: LockPoll<W>) -> bool {
        &&& after.spec_locked()
        &&& after.spec_value() == self.spec_value()
        &&& if !self.spec_locked() {
            r is Acquired && after.spec_waiters() == self.spec_waiters()
        } else {
            match r {
                LockPoll::Acquired => false,
                LockPoll::Waiting(k) => self.spec_waiters().register_post(
                    after.spec_waiters(),
                    h,
                    Ok(k),
                ),
                LockPoll::Rejected(g) => self.spec_waiters().register_post(
                    after.spec_waiters(),
                    h,
                    Err(g),
                ),
            }
        }
    }

    /// What `unlock()` does: the lock is freed and the waiter with the
    /// lowest key is named for waking; registrations stay in place.
    pub open spec fn unlock_post(self, after: Self, r: Option<usize>) -> bool {
        &&& !after.spec_locked()
        &&& after.spec_value() == self.spec_value()
        &&& after.spec_waiters() == self.spec_waiters()
        &&& is_lowest_key(self.spec_waiters()@, r)
    }

    /// A free lock around `value`, with room for `capacity` waiting tasks.
    pub fn new(value: T, capacity: usize) -> (r: Self)
        ensures
            r.wf(),
            !r.spec_locked(),
            r.spec_value() == value,
            r.spec_waiters()@ == Seq::<Option<W>>::empty(),
            r.spec_waiters().spec_capacity() == capacity,
    {
        Mutex { locked: false, value, waiters: WakerSet::new(capacity) }
    }

    pub fn is_locked(&self) -> (r: bool)
        ensures
            r == self.spec_locked(),
    {
        self.locked
    }

    /// Takes the lock if it is free; never waits.
    pub fn try_lock(&mut self) -> (r: bool)
        ensures
            r == !old(self).spec_locked(),
            final(self).spec_locked(),
            final(self).spec_value() == old(self).spec_value(),
            final(self).spec_waiters() == old(self).spec_waiters(),
    {
        if self.locked {
            false
        } else {
            self.locked = true;
            true
        }
    }

    /// Takes the lock if it is free; otherwise registers `handle` to be
    /// woken on release.
    pub fn lock(&mut self, handle: W) -> (r: LockPoll<W>)
        requires
            old(self).wf(),
        ensures
            final(self).wf(),
            old(self).lock_post(*final(self), handle, r),
    {
        if !self.locked {
            self.locked = true;
            LockPoll::Acquired
        } else {
            match self.waiters.register(handle) {
                Ok(k) => LockPoll::Waiting(k),
                Err(h) => LockPoll::Rejected(h),
            }
        }
    }

    /// Withdraws the waiter under `key`: called by a task that resumes or
    /// is cancelled while registered.
    pub fn cancel(&mut self, key: usize) -> (r: Option<W>)
        requires
            old(self).wf(),
        ensures
            final(self).wf(),
            final(self).spec_locked() == old(self).spec_locked(),
            final(self).spec_value() == old(self).spec_value(),
            old(self).spec_waiters().deregister_post(final(self).spec_waiters(), key, r),
    {
        self.waiters.deregister(key)
    }

    /// Releases the lock held by the caller and returns the key of the
    /// waiter to wake, if any.
    pub fn unlock(&mut self) -> (r: Option<usize>)
        requires
            old(self).wf(),
            old(self).spec_locked(),
        ensures
            final(self).wf(),
            old(self).unlock_post(*final(self), r),
    {
        self.locked = false;
        self.waiters.wake_one()
    }

    /// The handle registered under `key`.
    pub fn waiter(&self, key: usize) -> (r: &W)
        requires
            key < self.spec_waiters()@.len(),
            self.spec_waiters()@[key as int] is Some,
        ensures
            Some(*r) == self.spec_waiters()@[key as int],
    {
        self.waiters.get(key)
    }

    /// The guarded value, for the holder of the lock.
    pub fn get(&self) -> (r: &T)
        requires
            self.spec_locked(),
        ensures
            *r == self.spec_value(),
    {
        &self.value
    }

    /// Replaces the guarded value, for the holder of the lock, and returns
    /// the old one.
    pub fn replace(&mut self, value: T) -> (r: T)
        requires
            old(self).spec_locked(),
        ensures
            r == old(self).spec_value(),
            final(self).spec_value() == value,
            final(self).spec_locked(),
            final(self).spec_waiters() == old(self).spec_waiters(),
            final(self).wf() == old(self).wf(),
    {
        let mut value = value;
        std::mem::swap(&mut self.value, &mut value);
        value
    }
}

/// Two lock attempts in a row never both hold the lock.
pub proof fn lemma_mutual_exclusion<T, W>(
    m0: Mutex<T, W>,
    m1: Mutex<T, W>,
    m2: Mutex<T, W>,
    h1: W,
    h2: W,
    r1: LockPoll<W>,
    r2: LockPoll<W>,
)
    requires
        m0.lock_post(m1, h1, r1),
        m1.lock_post(m2, h2, r2),
    ensures
        !(r1 is Acquired && r2 is Acquired),
{
}

/// On a free lock with no waiters, the first attempt takes the lock and the
/// second waits; the lock stays held until its holder releases it, and the
/// release names the second task for waking.
pub proof fn lemma_waiter_woken_on_release<T, W>(
    m0: Mutex<T, W>,
    m1: Mutex<T, W>,
    m2: Mutex<T, W>,
    m3: Mutex<T, W>,
    h1: W,
    h2: W,
    r1: LockPoll<W>,
    r2: LockPoll<W>,
    w: Option<usize>,
)
    requires
        m0.wf(),
        !m0.spec_locked(),
        occupied_count(m0.spec_waiters()@) == 0,
        m0.lock_post(m1, h1, r1),
        m1.lock_post(m2, h2, r2),
        m2.unlock_post(m3, w),
    ensures
        r1 is Acquired,
        r2 matches LockPoll::Waiting(k) ==> m2.spec_locked() && w == Some(k),
{
    if let LockPoll::Waiting(k) = r2 {
        let s = m0.spec_waiters()@;
        let s2 = m2.spec_waiters()@;
        assert forall|j: int| 0 <= j < s.len() implies #[trigger] s[j] is None by {
            if s[j] is Some {
                crate::slab::lemma_count_update(s, j, None);
            }
        }
        assert(s2[k as int] is Some);
        if let Some(x) = w {
            if x != k {
                assert(x < s.len());
                assert(s2[x as int] is Some);
                if x < s.len() {
                    assert(s2[x as int] == s[x as int]);
                }
            }
        }
    }
}

} // verus!
