//! A set of wake handles of suspended tasks, one slot per waiting task.
use vstd::prelude::*;

use crate::slab::{
    IterMut, Slab, lemma_count_push, lemma_count_update, occupied_count, occupied_keys,
};

verus! {

/// The handles of the tasks waiting on one condition. Each waiting task
/// holds the key of its registration until it deregisters.
pub struct WakerSet<W> {
    pub(crate) slots: Slab<W>,
}

/// `r` is the lowest key that holds a value, or `None` when none does.
pub open spec fn is_lowest_key<W>(s: Seq<Option<W>>, r: Option<usize>) -> bool {
    match r {
        Some(k) => k < s.len() && s[k as int] is Some && forall|j: int|
            0 <= j < k ==> #[trigger] s[j] is None,
        None => forall|k: int| 0 <= k < s.len() ==> #[trigger] s[k] is None,
    }
}

impl<W> WakerSet<W> {
    /// The registration slots: `Some(h)` where handle `h` is registered.
    pub closed spec fn view(&self) -> Seq<Option<W>> {
        self.slots@
    }

    pub closed spec fn wf(&self) -> bool {
        self.slots.wf()
    }

    pub closed spec fn spec_capacity(&self) -> nat {
        self.slots.spec_capacity()
    }

    /// What `register(h)` does: it succeeds exactly when fewer than
    /// capacity handles are registered, storing `h` under a key that was
    /// free; otherwise it hands `h` back and changes nothing.
    pub open spec fn register_post(self, after: Self, h: W, r: Result<usize, W>) -> bool {
        &&& after.spec_capacity() == self.spec_capacity()
        &&& (r is Ok <==> occupied_count(self@) < self.spec_capacity())
        &&& r matches Ok(k) ==> {
            &&& k <= self@.len()
            &&& k < self@.len() ==> self@[k as int] is None
            &&& after@ == crate::slab::put(self@, k as int, h)
        }
        &&& r matches Err(v) ==> v == h && after@ == self@
    }

    /// What `deregister(key)` does: a registered key is freed and its
    /// handle returned; any other key leaves the set as it was.
    pub open spec fn deregister_post(self, after: Self, key: usize, r: Option<W>) -> bool {
        &&& after.spec_capacity() == self.spec_capacity()
        &&& if key < self@.len() && self@[key as int] is Some {
            &&& r == self@[key as int]
            &&& after@ == self@.update(key as int, None)
        } else {
            &&& r is None
            &&& after@ == self@
        }
    }

    /// An empty set with room for `capacity` waiting tasks.
    pub fn new(capacity: usize) -> (r: Self)
        ensures
            r.wf(),
            r@ == Seq::<Option<W>>::empty(),
            r.spec_capacity() == capacity,
    {
        WakerSet { slots: Slab::new(capacity) }
    }

    /// The number of registered handles.
    pub fn len(&self) -> (r: usize)
        requires
            self.wf(),
        ensures
            r == occupied_count(self@),
    {
        self.slots.len()
    }

    /// Whether no handle is registered.
    pub fn is_empty(&self) -> (r: bool)
        requires
            self.wf(),
        ensures
            r == (occupied_count(self@) == 0),
    {
        self.slots.len() == 0
    }

    /// Registers `handle` and returns its key, or hands it back when the
    /// set is full.
    pub fn register(&mut self, handle: W) -> (r: Result<usize, W>)
        requires
            old(self).wf(),
        ensures
            final(self).wf(),
            old(self).register_post(*final(self), handle, r),
    {
        proof {
            self.slots.lemma_occupancy();
        }
        self.slots.insert(handle)
    }

    /// Frees the registration under `key` and returns its handle; a key
    /// that is not registered is left alone.
    pub fn deregister(&mut self, key: usize) -> (r: Option<W>)
        requires
            old(self).wf(),
        ensures
            final(self).wf(),
            old(self).deregister_post(*final(self), key, r),
    {
        if self.slots.contains(key) {
            Some(self.slots.remove(key))
        } else {
            None
        }
    }

    /// The handle registered under `key`.
    pub fn get(&self, key: usize) -> (r: &W)
        requires
            key < self@.len(),
            self@[key as int] is Some,
        ensures
            Some(*r) == self@[key as int],
    {
        self.slots.get(key)
    }

    /// The keys of every registered handle, ascending: the tasks to wake
    /// when all waiters are to be resumed. Registrations stay in place;
    /// each task deregisters itself when it resumes or is cancelled.
    pub fn wake_all(&self) -> (r: IterMut)
        ensures
            r.wf(),
            r@ == occupied_keys(self@),
    {
        self.slots.iter_mut()
    }

    /// The lowest registered key: the one task to wake when a single
    /// waiter is to be resumed.
    pub fn wake_one(&self) -> (r: Option<usize>)
        ensures
            is_lowest_key(self@, r),
    {
        let mut it = self.slots.iter_mut();
        let r = it.next();
        proof {
            let ks = occupied_keys(self@);
            crate::slab::lemma_occupied_keys(self@);
            if let Some(k) = r {
                assert(ks.contains(k as int));
                assert forall|j: int| 0 <= j < k implies #[trigger] self@[j] is None by {
                    if self@[j] is Some {
                        assert(ks.contains(j));
                        let t = choose|t: int| 0 <= t < ks.len() && ks[t] == j;
                        assert(t != 0);
                    }
                }
            } else {
                assert forall|k: int| 0 <= k < self@.len() implies #[trigger] self@[k] is None by {
                    if self@[k] is Some {
                        assert(ks.contains(k));
                    }
                }
            }
        }
        r
    }
}

/// A registration that is later deregistered gives its slot back: the
/// number of registered handles returns to what it was, so the set never
/// loses capacity to a cancelled wait.
pub proof fn lemma_deregister_returns_slot<W>(
    w0: WakerSet<W>,
    w1: WakerSet<W>,
    w2: WakerSet<W>,
    h: W,
    k: usize,
    r: Option<W>,
)
    requires
        w0.wf(),
        w0.register_post(w1, h, Ok(k)),
        w1.deregister_post(w2, k, r),
    ensures
        r == Some(h),
        occupied_count(w2@) == occupied_count(w0@),
        w2.spec_capacity() == w0.spec_capacity(),
{
    let s = w0@;
    if k < s.len() {
        assert(w1@[k as int] == Some(h));
        lemma_count_update(s, k as int, Some(h));
    } else {
        assert(w1@[k as int] == Some(h));
        lemma_count_push(s, Some(h));
    }
    lemma_count_update(w1@, k as int, None);
}

/// A registration succeeds whenever fewer than capacity handles are
/// registered.
pub proof fn lemma_register_succeeds<W>(w0: WakerSet<W>, w1: WakerSet<W>, h: W, r: Result<usize, W>)
    requires
        w0.wf(),
        occupied_count(w0@) < w0.spec_capacity(),
        w0.register_post(w1, h, r),
    ensures
        r is Ok,
        occupied_count(w1@) == occupied_count(w0@) + 1,
{
    let k = r->Ok_0;
    if k < w0@.len() {
        lemma_count_update(w0@, k as int, Some(h));
    } else {
        lemma_count_push(w0@, Some(h));
    }
}

} // verus!
