//! Cooperative synchronization primitives for single-context, fixed-capacity
//! environments: a bounded storage block, an index-keyed slab with an embedded
//! free list, a waker set built on the slab, and the decision cores of a mutex
//! and a bounded channel.
pub mod storage;
pub mod slab;
pub mod waker_set;
pub mod mutex;
pub mod channel;
