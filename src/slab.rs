//! An arena that hands out stable integer keys and recycles freed keys
//! through a free list threaded through its vacant entries.
use vstd::prelude::*;

use crate::storage::Vec;

verus! {

/// One slot of a slab: either free, holding the index of the next free slot,
/// or holding a value.
pub enum Entry<T> {
    Vacant(usize),
    Occupied(T),
}

/// What a slot holds, seen from outside: `None` when free.
pub open spec fn slot_of<T>(e: Entry<T>) -> Option<T> {
    match e {
        Entry::Vacant(_) => None,
        Entry::Occupied(v) => Some(v),
    }
}

/// How many slots hold a value.
pub open spec fn occupied_count<T>(s: Seq<Option<T>>) -> nat
    decreases s.len(),
{
    if s.len() == 0 {
        0
    } else {
        occupied_count(s.drop_last()) + if s.last() is Some {
            1nat
        } else {
            0nat
        }
    }
}

/// The keys of the slots that hold a value, in ascending order.
pub open spec fn occupied_keys<T>(s: Seq<Option<T>>) -> Seq<int>
    decreases s.len(),
{
    if s.len() == 0 {
        Seq::empty()
    } else if s.last() is Some {
        occupied_keys(s.drop_last()).push(s.len() - 1)
    } else {
        occupied_keys(s.drop_last())
    }
}

/// The slots after storing `v` under key `k`: an existing slot is
/// overwritten, the key one past the end appends a slot.
pub open spec fn put<T>(s: Seq<Option<T>>, k: int, v: T) -> Seq<Option<T>> {
    if k < s.len() {
        s.update(k, Some(v))
    } else {
        s.push(Some(v))
    }
}

pub(crate) proof fn lemma_count_update<T>(s: Seq<Option<T>>, i: int, v: Option<T>)
    requires
        0 <= i < s.len(),
    ensures
        occupied_count(s.update(i, v)) + (if s[i] is Some {
            1int
        } else {
            0int
        }) == occupied_count(s) + (if v is Some {
            1int
        } else {
            0int
        }),
    decreases s.len(),
{
    let u = s.update(i, v);
    if i == s.len() - 1 {
        assert(u.drop_last() =~= s.drop_last());
    } else {
        assert(u.drop_last() =~= s.drop_last().update(i, v));
        lemma_count_update(s.drop_last(), i, v);
    }
}

pub(crate) proof fn lemma_count_push<T>(s: Seq<Option<T>>, v: Option<T>)
    ensures
        occupied_count(s.push(v)) == occupied_count(s) + (if v is Some {
            1nat
        } else {
            0nat
        }),
{
    assert(s.push(v).drop_last() =~= s);
}

pub(crate) proof fn lemma_count_le_len<T>(s: Seq<Option<T>>)
    ensures
        occupied_count(s) <= s.len(),
    decreases s.len(),
{
    if s.len() > 0 {
        lemma_count_le_len(s.drop_last());
    }
}

/// A fixed-capacity arena of values addressed by integer keys.
pub struct Slab<T> {
    pub(crate) entries: Vec<Entry<T>>,
    pub(crate) len: usize,
    pub(crate) next: usize,
    /// The free list, head first.
    pub(crate) free: Ghost<Seq<usize>>,
}

impl<T> Slab<T> {
    /// The slots, one per storage index: `Some(v)` where `v` is stored.
    pub closed spec fn view(&self) -> Seq<Option<T>> {
        self.entries@.map_values(|e: Entry<T>| slot_of(e))
    }

    pub closed spec fn spec_capacity(&self) -> nat {
        self.entries.spec_capacity()
    }

    /// The key that the next insertion is given, when one is left.
    pub closed spec fn next_key(&self) -> usize {
        self.next
    }

    pub closed spec fn spec_len(&self) -> nat {
        self.len as nat
    }

    /// The free list runs from `next` through the vacant entries to the
    /// end of storage, visits every vacant entry once, and the occupied
    /// count is kept in `len`.
    pub closed spec fn wf(&self) -> bool {
        let e = self.entries@;
        let f = self.free@;
        &&& self.entries.wf()
        &&& self.next == if f.len() == 0 {
            e.len() as int
        } else {
            f[0] as int
        }
        &&& forall|i: int|
            0 <= i < f.len() ==> #[trigger] f[i] < e.len() && e[f[i] as int] == Entry::<T>::Vacant(
                if i + 1 < f.len() {
                    f[i + 1]
                } else {
                    e.len() as usize
                },
            )
        &&& f.no_duplicates()
        &&& forall|j: int| 0 <= j < e.len() && #[trigger] e[j] is Vacant ==> f.contains(j as usize)
        &&& self.len + f.len() == e.len()
        &&& self.len == occupied_count(self@)
    }

    /// What `insert(val)` does: when fewer than capacity slots are occupied
    /// it stores `val` under `next_key()`, a key that is vacant or one past
    /// the end, and returns that key; otherwise it returns `val` and changes
    /// nothing.
    pub open spec fn insert_post(self, after: Self, val: T, r: Result<usize, T>) -> bool {
        &&& after.spec_capacity() == self.spec_capacity()
        &&& if occupied_count(self@) < self.spec_capacity() {
            let k = self.next_key();
            &&& r == Ok::<usize, T>(k)
            &&& k <= self@.len()
            &&& k < self@.len() ==> self@[k as int] is None
            &&& after@ == put(self@, k as int, val)
        } else {
            &&& r == Err::<usize, T>(val)
            &&& after@ == self@
            &&& after.next_key() == self.next_key()
        }
    }

    /// What `remove(key)` does to an occupied key: the slot is freed, its
    /// value returned, and `key` becomes the next key handed out.
    pub open spec fn remove_post(self, after: Self, key: usize, r: T) -> bool {
        &&& key < self@.len()
        &&& self@[key as int] == Some(r)
        &&& after@ == self@.update(key as int, None)
        &&& after.next_key() == key
        &&& after.spec_capacity() == self.spec_capacity()
    }
}

impl<T> Slab<T> {
    /// The occupied count is the number of slots that hold a value, and it
    /// never exceeds the capacity.
    pub proof fn lemma_occupancy(&self)
        requires
            self.wf(),
        ensures
            self.spec_len() == occupied_count(self@),
            occupied_count(self@) <= self@.len() <= self.spec_capacity(),
    {
        lemma_count_le_len(self@);
    }

    /// An empty slab with room for `capacity` values.
    pub fn new(capacity: usize) -> (r: Self)
        ensures
            r.wf(),
            r@ == Seq::<Option<T>>::empty(),
            r.spec_capacity() == capacity,
            r.next_key() == 0,
    {
        let r = Slab { entries: Vec::new(capacity), len: 0, next: 0, free: Ghost(Seq::empty()) };
        assert(r@ =~= Seq::<Option<T>>::empty());
        r
    }

    /// The number of occupied slots.
    pub fn len(&self) -> (r: usize)
        requires
            self.wf(),
        ensures
            r == occupied_count(self@),
    {
        self.len
    }

    pub fn capacity(&self) -> (r: usize)
        ensures
            r == self.spec_capacity(),
    {
        self.entries.capacity()
    }

    /// Stores `val` under a fresh key and returns the key; when every slot
    /// is taken, returns `val` unchanged and leaves the slab as it was.
    pub fn insert(&mut self, val: T) -> (r: Result<usize, T>)
        requires
            old(self).wf(),
        ensures
            final(self).wf(),
            old(self).insert_post(*final(self), val, r),
    {
        let key = self.next;
        match self.insert_at(key, val) {
            Ok(()) => Ok(key),
            Err(val) => Err(val),
        }
    }

    fn insert_at(&mut self, key: usize, val: T) -> (r: Result<(), T>)
        requires
            old(self).wf(),
            key == old(self).next_key(),
        ensures
            final(self).wf(),
            old(self).insert_post(
                *final(self),
                val,
                match r {
                    Ok(()) => Ok::<usize, T>(key),
                    Err(v) => Err::<usize, T>(v),
                },
            ),
    {
        let ghost s0 = self@;
        let ghost f = self.free@;
        proof {
            lemma_count_le_len(s0);
            if f.len() > 0 {
                assert(f[0] < self.entries@.len());
            }
        }
        if key == self.entries.len() {
            assert(f.len() == 0);
            assert(self.len == self.entries@.len());
            match self.entries.push(Entry::Occupied(val)) {
                Ok(()) => {},
                Err(entry) => {
                    return match entry {
                        Entry::Occupied(val) => Err(val),
                        Entry::Vacant(_) => vstd::pervasive::unreached(),
                    };
                },
            }
            self.len = self.len + 1;
            self.next = key + 1;
            proof {
                lemma_count_push(s0, Some(val));
                assert(self@ =~= s0.push(Some(val)));
                let e = self.entries@;
                assert forall|j: int| 0 <= j < e.len() && #[trigger] e[j] is Vacant implies f.contains(
                    j as usize,
                ) by {
                    assert(j < e.len() - 1);
                    assert(old(self).entries@[j] == e[j]);
                }
            }
            Ok(())
        } else {
            assert(f.len() > 0);
            assert(self.entries@[f[0] as int] is Vacant);
            assert(s0[key as int] is None);
            assert(self.len < self.entries@.len());
            let prev = self.entries.replace(key, Entry::Occupied(val));
            match prev {
                Entry::Vacant(next) => {
                    self.next = next;
                },
                Entry::Occupied(_) => {
                    proof {
                        assert(false);
                    }
                },
            }
            self.len = self.len + 1;
            proof {
                self.free@ = f.subrange(1, f.len() as int);
                let nf = self.free@;
                let e = self.entries@;
                lemma_count_update(s0, key as int, Some(val));
                assert(self@ =~= s0.update(key as int, Some(val)));
                assert forall|i: int| 0 <= i < nf.len() implies #[trigger] nf[i] < e.len()
                    && e[nf[i] as int] == Entry::<T>::Vacant(
                    if i + 1 < nf.len() {
                        nf[i + 1]
                    } else {
                        e.len() as usize
                    },
                ) by {
                    assert(nf[i] == f[i + 1]);
                    assert(f[i + 1] != f[0]);
                }
                assert forall|j: int| 0 <= j < e.len() && #[trigger] e[j] is Vacant implies nf.contains(
                    j as usize,
                ) by {
                    assert(j != key);
                    assert(old(self).entries@[j] == e[j]);
                    let t = choose|t: int| 0 <= t < f.len() && f[t] == j as usize;
                    assert(t != 0);
                    assert(nf[t - 1] == j as usize);
                }
            }
            Ok(())
        }
    }

    /// Frees the occupied slot `key` and returns its value; `key` is the
    /// next key handed out.
    /// Freeing the occupied slot `key` keeps the slab well formed.
    proof fn lemma_remove_wf(a: Self, b: Self, key: usize)
        requires
            a.wf(),
            key < a@.len(),
            a@[key as int] is Some,
            b.entries@ == a.entries@.update(key as int, Entry::<T>::Vacant(a.next)),
            b.entries.spec_capacity() == a.entries.spec_capacity(),
            b.free@ == seq![key].add(a.free@),
            b.len == a.len - 1,
            b.next == key,
        ensures
            b.wf(),
            b@ == a@.update(key as int, None),
    {
        let f = a.free@;
        let nf = b.free@;
        let e = b.entries@;
        assert(a.entries@[key as int] is Occupied);
        if f.contains(key) {
            let t = choose|t: int| 0 <= t < f.len() && f[t] == key;
            assert(a.entries@[f[t] as int] is Vacant);
        }
        lemma_count_update(a@, key as int, None);
        assert(b@ =~= a@.update(key as int, None));
        assert forall|i: int| 0 <= i < nf.len() implies #[trigger] nf[i] < e.len() && e[nf[i] as int]
            == Entry::<T>::Vacant(
            if i + 1 < nf.len() {
                nf[i + 1]
            } else {
                e.len() as usize
            },
        ) by {
            if i > 0 {
                assert(nf[i] == f[i - 1]);
                assert(f[i - 1] != key);
            }
        }
        assert forall|j: int| 0 <= j < e.len() && #[trigger] e[j] is Vacant implies nf.contains(
            j as usize,
        ) by {
            if j != key {
                assert(a.entries@[j] == e[j]);
                let t = choose|t: int| 0 <= t < f.len() && f[t] == j as usize;
                assert(nf[t + 1] == j as usize);
            } else {
                assert(nf[0] == key);
            }
        }
    }

    /// Frees the occupied slot `key` and returns its value; `key` is the
    /// next key handed out.
    pub fn remove(&mut self, key: usize) -> (r: T)
        requires
            old(self).wf(),
            key < old(self)@.len(),
            old(self)@[key as int] is Some,
        ensures
            final(self).wf(),
            old(self).remove_post(*final(self), key, r),
    {
        let ghost a = *self;
        proof {
            assert(self.entries@[key as int] is Occupied);
            assert(self.len > 0) by {
                lemma_count_update(self@, key as int, None);
            }
        }
        let prev = self.entries.replace(key, Entry::Vacant(self.next));
        match prev {
            Entry::Occupied(val) => {
                self.len = self.len - 1;
                self.next = key;
                proof {
                    self.free@ = seq![key].add(a.free@);
                    Self::lemma_remove_wf(a, *self, key);
                }
                val
            },
            Entry::Vacant(_) => {
                proof {
                    assert(false);
                }
                vstd::pervasive::unreached()
            },
        }
    }
}

/// The keys listed by `occupied_keys` are strictly ascending, lie within the
/// slots, and are exactly the keys of the slots that hold a value.
pub proof fn lemma_occupied_keys<T>(s: Seq<Option<T>>)
    ensures
        forall|i: int, j: int|
            0 <= i < j < occupied_keys(s).len() ==> occupied_keys(s)[i] < occupied_keys(s)[j],
        forall|i: int|
            0 <= i < occupied_keys(s).len() ==> 0 <= #[trigger] occupied_keys(s)[i] < s.len(),
        forall|k: int| 0 <= k < s.len() ==> (occupied_keys(s).contains(k) <==> s[k] is Some),
    decreases s.len(),
{
    if s.len() > 0 {
        let p = s.drop_last();
        lemma_occupied_keys(p);
        assert forall|k: int| 0 <= k < s.len() implies (occupied_keys(s).contains(k) <==> s[k] is Some) by {
            if k < s.len() - 1 {
                assert(s[k] == p[k]);
                if occupied_keys(p).contains(k) {
                    let t = choose|t: int| 0 <= t < occupied_keys(p).len() && occupied_keys(p)[t] == k;
                    assert(occupied_keys(s)[t] == k);
                }
                if occupied_keys(s).contains(k) {
                    let t = choose|t: int| 0 <= t < occupied_keys(s).len() && occupied_keys(s)[t] == k;
                    if t < occupied_keys(p).len() {
                        assert(occupied_keys(p)[t] == k);
                    }
                }
            } else {
                if s[k] is Some {
                    assert(occupied_keys(s).last() == k);
                } else if occupied_keys(s).contains(k) {
                    let t = choose|t: int| 0 <= t < occupied_keys(s).len() && occupied_keys(s)[t] == k;
                    assert(occupied_keys(p)[t] == k);
                }
            }
        }
    }
}

/// A key that holds a value is never handed out by an insertion: only a
/// removal of that key makes it available again.
pub proof fn lemma_insert_fresh_key<T>(s: Slab<T>, after: Slab<T>, val: T, r: Result<usize, T>, k: usize)
    requires
        s.wf(),
        k < s@.len(),
        s@[k as int] is Some,
        s.insert_post(after, val, r),
    ensures
        r != Ok::<usize, T>(k),
{
}

/// After `remove(k)`, the next insertion is given `k` again and fills that
/// slot with the new value.
pub proof fn lemma_removed_key_reused<T>(
    s0: Slab<T>,
    s1: Slab<T>,
    s2: Slab<T>,
    k: usize,
    removed: T,
    val: T,
    r: Result<usize, T>,
)
    requires
        s0.wf(),
        s0.remove_post(s1, k, removed),
        s1.insert_post(s2, val, r),
    ensures
        r == Ok::<usize, T>(k),
        s2@ == s0@.update(k as int, Some(val)),
{
    s0.lemma_occupancy();
    lemma_count_update(s0@, k as int, None);
    assert(s2@ =~= s0@.update(k as int, Some(val)));
}

/// An insertion into a slab whose every slot is taken hands the value back
/// and leaves the slots, and so the occupied count, as they were.
pub proof fn lemma_full_insert_rejected<T>(s: Slab<T>, after: Slab<T>, val: T, r: Result<usize, T>)
    requires
        s.wf(),
        occupied_count(s@) == s.spec_capacity(),
        s.insert_post(after, val, r),
    ensures
        r == Err::<usize, T>(val),
        after@ == s@,
        occupied_count(after@) == occupied_count(s@),
{
}

/// The keys of a slab's occupied slots, ascending, handed out one at a time.
pub struct IterMut {
    pub(crate) keys: std::vec::Vec<usize>,
    pub(crate) pos: usize,
}

impl IterMut {
    /// The keys not yet handed out.
    pub closed spec fn view(&self) -> Seq<int> {
        self.keys@.subrange(self.pos as int, self.keys@.len() as int).map_values(|k: usize| k as int)
    }

    pub closed spec fn wf(&self) -> bool {
        self.pos <= self.keys@.len()
    }

    /// The next key, or `None` once all have been handed out.
    pub fn next(&mut self) -> (r: Option<usize>)
        requires
            old(self).wf(),
        ensures
            final(self).wf(),
            old(self)@.len() == 0 ==> r is None && final(self)@ == old(self)@,
            old(self)@.len() > 0 ==> r is Some && r->Some_0 as int == old(self)@[0] && final(self)@
                == old(self)@.drop_first(),
    {
        if self.pos < self.keys.len() {
            let k = self.keys[self.pos];
            self.pos = self.pos + 1;
            assert(self@ =~= old(self)@.drop_first());
            Some(k)
        } else {
            None
        }
    }
}

impl<T> Slab<T> {
    /// The value stored under `key`.
    pub fn get(&self, key: usize) -> (r: &T)
        requires
            key < self@.len(),
            self@[key as int] is Some,
        ensures
            Some(*r) == self@[key as int],
    {
        match self.entries.get(key) {
            Entry::Occupied(v) => v,
            Entry::Vacant(_) => {
                proof {
                    assert(false);
                }
                vstd::pervasive::unreached()
            },
        }
    }

    /// Overwriting the value of an occupied slot keeps the slab well formed.
    proof fn lemma_write_keeps_wf(a: Self, b: Self, key: usize, x: T)
        requires
            a.wf(),
            key < a.entries@.len(),
            a.entries@[key as int] is Occupied,
            b.entries@ == a.entries@.update(key as int, Entry::Occupied(x)),
            b.entries.spec_capacity() == a.entries.spec_capacity(),
            b.free == a.free,
            b.len == a.len,
            b.next == a.next,
        ensures
            b.wf(),
            b@ == a@.update(key as int, Some(x)),
    {
        let f = a.free@;
        lemma_count_update(a@, key as int, Some(x));
        assert(b@ =~= a@.update(key as int, Some(x)));
        assert forall|i: int| 0 <= i < f.len() implies #[trigger] f[i] != key by {
            assert(a.entries@[f[i] as int] is Vacant);
        }
        assert forall|j: int| 0 <= j < b.entries@.len() && #[trigger] b.entries@[j] is Vacant implies f.contains(
            j as usize,
        ) by {
            assert(a.entries@[j] == b.entries@[j]);
        }
    }

    /// The value stored under `key`, for changing in place; the slot stays
    /// occupied whatever is written.
    pub fn get_mut(&mut self, key: usize) -> (r: &mut T)
        requires
            old(self).wf(),
            key < old(self)@.len(),
            old(self)@[key as int] is Some,
        ensures
            Some(*r) == old(self)@[key as int],
            final(self)@ == old(self)@.update(key as int, Some(*final(r))),
            final(self).spec_capacity() == old(self).spec_capacity(),
            final(self).next_key() == old(self).next_key(),
            final(self).spec_len() == old(self).spec_len(),
            final(self).wf(),
    {
        let ghost a = *self;
        proof {
            assert(self.entries@[key as int] is Occupied);
        }
        match self.entries.get_mut(key) {
            Entry::Occupied(v) => {
                proof {
                    Self::lemma_write_keeps_wf(a, *after_borrow(self), key, *final(v));
                }
                v
            },
            Entry::Vacant(_) => {
                proof {
                    assert(false);
                }
                vstd::pervasive::unreached()
            },
        }
    }

    /// Whether `key` holds a value.
    pub fn contains(&self, key: usize) -> (r: bool)
        ensures
            r == (key < self@.len() && self@[key as int] is Some),
    {
        if key < self.entries.len() {
            match self.entries.get(key) {
                Entry::Occupied(_) => true,
                Entry::Vacant(_) => false,
            }
        } else {
            false
        }
    }

    /// The keys of the occupied slots in ascending order, vacant slots left
    /// out.
    pub fn iter_mut(&self) -> (r: IterMut)
        ensures
            r.wf(),
            r@ == occupied_keys(self@),
            forall|i: int, j: int| 0 <= i < j < r@.len() ==> r@[i] < r@[j],
            forall|i: int| 0 <= i < r@.len() ==> 0 <= #[trigger] r@[i] < self@.len(),
            forall|k: int| 0 <= k < self@.len() ==> (r@.contains(k) <==> self@[k] is Some),
    {
        proof {
            lemma_occupied_keys(self@);
        }
        let mut keys: std::vec::Vec<usize> = std::vec::Vec::new();
        let n = self.entries.len();
        let mut i: usize = 0;
        while i < n
            invariant
                n == self@.len(),
                i <= n,
                keys@.map_values(|k: usize| k as int) == occupied_keys(self@.subrange(0, i as int)),
            decreases n - i,
        {
            let ghost p = self@.subrange(0, i as int);
            let ghost q = self@.subrange(0, i + 1);
            assert(q.drop_last() =~= p);
            assert(q.last() == self@[i as int]);
            match self.entries.get(i) {
                Entry::Occupied(_) => {
                    keys.push(i);
                    assert(keys@.map_values(|k: usize| k as int) =~= occupied_keys(p).push(i as int));
                },
                Entry::Vacant(_) => {},
            }
            i = i + 1;
        }
        assert(self@.subrange(0, n as int) =~= self@);
        let r = IterMut { keys, pos: 0 };
        assert(r@ =~= keys@.map_values(|k: usize| k as int));
        r
    }
}

} // verus!
