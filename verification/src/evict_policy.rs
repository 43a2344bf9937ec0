//! Caches bounded by a capacity in bytes, and the order in which they evict.
//!
//! Each policy has a mathematical model (its view) and says, as functions on
//! that model, what a lookup and an insertion do. The running total
//! `used_size` is a counter: an insertion adds the new size to it and an
//! eviction takes the evicted size away. It equals the bytes that are
//! resident for as long as no key is inserted while it is resident; the
//! models call that state exact.
use vstd::prelude::*;
use crate::Key;

pub mod fifo_policy;
pub mod lru_policy;

pub use fifo_policy::FifoPolicy;
pub use lru_policy::LruPolicy;

verus! {

/// The larger of two sizes.
pub open spec fn larger(a: u64, b: u64) -> u64 {
    if a >= b {
        a
    } else {
        b
    }
}

/// A cache with a fixed byte capacity and a rule for what leaves first.
pub trait EvictPolicy: View + Send + Sized {
    /// The invariant of the representation.
    spec fn wf(&self) -> bool;

    /// The capacities an instance can be made with.
    spec fn accepts(capacity: u64) -> bool;

    /// The model of a fresh instance.
    spec fn model_new(capacity: u64) -> Self::V;

    /// The model after a lookup of `key`.
    spec fn model_get(m: Self::V, key: Key) -> Self::V;

    /// The model after an insertion of `key` with `size`.
    spec fn model_put(m: Self::V, key: Key, size: u64) -> Self::V;

    spec fn model_capacity(m: Self::V) -> u64;

    /// The running total `used_size`.
    spec fn model_used(m: Self::V) -> u64;

    /// Whether `key` is resident.
    spec fn model_holds(m: Self::V, key: Key) -> bool;

    /// Whether `used_size` is the sum of the resident sizes, and the policy
    /// will keep it so under insertions of keys that are not resident.
    spec fn model_exact(m: Self::V) -> bool;

    /// What holds of the model of every sound instance.
    spec fn model_wf(m: Self::V) -> bool;

    /// The model of a sound instance is sound.
    proof fn lemma_wf_model(&self)
        requires
            self.wf(),
        ensures
            Self::model_wf(self@),
    ;

    /// A fresh instance is sound, exact and empty.
    proof fn law_new(capacity: u64)
        requires
            Self::accepts(capacity),
        ensures
            Self::model_wf(Self::model_new(capacity)),
            Self::model_exact(Self::model_new(capacity)),
            Self::model_capacity(Self::model_new(capacity)) == capacity,
            Self::model_used(Self::model_new(capacity)) == 0,
            forall|key: Key| !Self::model_holds(Self::model_new(capacity), key),
    ;

    /// A lookup changes neither what is resident nor the accounting, and
    /// nothing at all if the key is not resident.
    proof fn law_get(m: Self::V, key: Key)
        requires
            Self::model_wf(m),
        ensures
            Self::model_wf(Self::model_get(m, key)),
            !Self::model_holds(m, key) ==> Self::model_get(m, key) == m,
            Self::model_capacity(Self::model_get(m, key)) == Self::model_capacity(m),
            Self::model_used(Self::model_get(m, key)) == Self::model_used(m),
            Self::model_exact(m) ==> Self::model_exact(Self::model_get(m, key)),
            forall|k: Key| Self::model_holds(Self::model_get(m, key), k) == Self::model_holds(m, k),
    ;

    /// An insertion leaves the key resident and adds no more than its size
    /// to the total. From an exact state the total ends within the capacity
    /// or at the size of the item, whichever is larger; and the state stays
    /// exact if the key was not resident.
    proof fn law_put(m: Self::V, key: Key, size: u64)
        requires
            Self::model_wf(m),
            Self::model_used(m) + size <= u64::MAX,
        ensures
            Self::model_wf(Self::model_put(m, key, size)),
            Self::model_capacity(Self::model_put(m, key, size)) == Self::model_capacity(m),
            Self::model_holds(Self::model_put(m, key, size), key),
            Self::model_used(Self::model_put(m, key, size)) <= Self::model_used(m) + size,
            Self::model_exact(m) ==> Self::model_used(Self::model_put(m, key, size)) <= larger(
                Self::model_capacity(m),
                size,
            ),
            Self::model_exact(m) && size <= Self::model_capacity(m) ==> Self::model_used(
                Self::model_put(m, key, size),
            ) <= Self::model_capacity(m),
            Self::model_exact(m) && !Self::model_holds(m, key) ==> Self::model_exact(
                Self::model_put(m, key, size),
            ),
    ;

    /// An insertion that fits evicts nothing: every key that was resident
    /// stays, and the total grows by the size exactly.
    proof fn law_put_that_fits(m: Self::V, key: Key, size: u64)
        requires
            Self::model_wf(m),
            Self::model_used(m) + size <= Self::model_capacity(m),
        ensures
            forall|k: Key| Self::model_holds(m, k) ==> Self::model_holds(
                Self::model_put(m, key, size),
                k,
            ),
            Self::model_used(Self::model_put(m, key, size)) == Self::model_used(m) + size,
    ;

    /// Tells whether `new` can be called with this capacity.
    fn accepts_capacity(capacity: u64) -> (ok: bool)
        ensures
            ok == Self::accepts(capacity),
    ;

    /// An empty instance.
    fn new(capacity: u64) -> (p: Self)
        requires
            Self::accepts(capacity),
        ensures
            p.wf(),
            p@ == Self::model_new(capacity),
            Self::model_capacity(p@) == capacity,
            Self::model_used(p@) == 0,
            Self::model_exact(p@),
            forall|key: Key| !Self::model_holds(p@, key),
    ;

    /// Tells whether `key` is resident. A policy that orders by recency
    /// counts this as a use of the key. Sizes are never touched.
    fn get(&mut self, key: Key) -> (found: Option<()>)
        requires
            old(self).wf(),
        ensures
            final(self).wf(),
            found is Some == Self::model_holds(old(self)@, key),
            final(self)@ == Self::model_get(old(self)@, key),
            !Self::model_holds(old(self)@, key) ==> final(self)@ == old(self)@,
            Self::model_capacity(final(self)@) == Self::model_capacity(old(self)@),
            Self::model_used(final(self)@) == Self::model_used(old(self)@),
            Self::model_exact(old(self)@) ==> Self::model_exact(final(self)@),
            forall|k: Key| Self::model_holds(final(self)@, k) == Self::model_holds(old(self)@, k),
    ;

    /// Inserts or replaces `key`. Entries are evicted in the policy's order
    /// until the new size fits or nothing is left to evict; then the key is
    /// inserted whether it fits or not, and `size` is added to `used_size`.
    ///
    /// An item that fits evicts nothing. From an exact state the total stays
    /// within the capacity unless the item alone is larger than the
    /// capacity.
    fn put(&mut self, key: Key, size: u64)
        requires
            old(self).wf(),
            Self::model_used(old(self)@) + size <= u64::MAX,
        ensures
            final(self).wf(),
            final(self)@ == Self::model_put(old(self)@, key, size),
            Self::model_capacity(final(self)@) == Self::model_capacity(old(self)@),
            Self::model_holds(final(self)@, key),
            Self::model_used(final(self)@) <= Self::model_used(old(self)@) + size,
            Self::model_exact(old(self)@) ==> Self::model_used(final(self)@) <= larger(
                Self::model_capacity(old(self)@),
                size,
            ),
            Self::model_exact(old(self)@) && size <= Self::model_capacity(old(self)@)
                ==> Self::model_used(final(self)@) <= Self::model_capacity(old(self)@),
            Self::model_exact(old(self)@) && !Self::model_holds(old(self)@, key)
                ==> Self::model_exact(final(self)@),
            Self::model_used(old(self)@) + size <= Self::model_capacity(old(self)@) ==> {
                &&& Self::model_used(final(self)@) == Self::model_used(old(self)@) + size
                &&& forall|k: Key|
                    Self::model_holds(old(self)@, k) ==> Self::model_holds(final(self)@, k)
            },
    ;
}

/// The model after a sequence of insertions, each a key with its size.
pub open spec fn after_puts<P: EvictPolicy>(m: P::V, puts: Seq<(Key, u64)>) -> P::V
    decreases puts.len(),
{
    if puts.len() == 0 {
        m
    } else {
        P::model_put(after_puts::<P>(m, puts.drop_last()), puts.last().0, puts.last().1)
    }
}

/// Whether every insertion of the sequence is one that `put` takes, finds
/// its key not resident, and brings a size of at most the capacity.
pub open spec fn puts_fit<P: EvictPolicy>(m: P::V, puts: Seq<(Key, u64)>) -> bool
    decreases puts.len(),
{
    puts.len() == 0 || {
        &&& puts_fit::<P>(m, puts.drop_last())
        &&& P::model_used(after_puts::<P>(m, puts.drop_last())) + puts.last().1 <= u64::MAX
        &&& !P::model_holds(after_puts::<P>(m, puts.drop_last()), puts.last().0)
        &&& puts.last().1 <= P::model_capacity(m)
    }
}

/// After any sequence of insertions that fit, into an exact state within its
/// capacity, `used_size` is within the capacity. The same holds after each
/// insertion of the sequence, as every front of a sequence that fits is one.
pub proof fn law_capacity_invariant<P: EvictPolicy>(m: P::V, puts: Seq<(Key, u64)>)
    requires
        P::model_wf(m),
        P::model_exact(m),
        P::model_used(m) <= P::model_capacity(m),
        puts_fit::<P>(m, puts),
    ensures
        P::model_wf(after_puts::<P>(m, puts)),
        P::model_exact(after_puts::<P>(m, puts)),
        P::model_capacity(after_puts::<P>(m, puts)) == P::model_capacity(m),
        P::model_used(after_puts::<P>(m, puts)) <= P::model_capacity(m),
    decreases puts.len(),
{
    if puts.len() > 0 {
        law_capacity_invariant::<P>(m, puts.drop_last());
        P::law_put(after_puts::<P>(m, puts.drop_last()), puts.last().0, puts.last().1);
    }
}

} // verus!
