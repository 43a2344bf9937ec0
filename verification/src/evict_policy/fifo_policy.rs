//! First in, first out: what arrived first leaves first.
use std::collections::VecDeque;
use vstd::prelude::*;
use crate::Key;
use crate::evict_policy::EvictPolicy;
use crate::evict_policy::larger;

verus! {

/// The sizes of the resident keys, in a `hashbrown::HashMap`.
///
/// The map's type takes an allocator, bound by a trait that `hashbrown`
/// keeps to itself, so it cannot be declared to the verifier. It is held
/// here instead and reached through the functions below, each of which makes
/// one call.
#[verifier::external_body]
pub struct SizeTable {
    inner: hashbrown::HashMap<Key, u64>,
}

/// What a [`SizeTable`] holds: each resident key with its size.
pub uninterp spec fn table_entries(t: SizeTable) -> Map<Key, u64>;

/// Calls `hashbrown::HashMap::new`: a map that holds nothing.
#[verifier::external_body]
fn table_new() -> (table: SizeTable)
    ensures
        table_entries(table) == (Map::<Key, u64>::empty()),
{
    SizeTable { inner: hashbrown::HashMap::new() }
}

/// Calls `hashbrown::HashMap::get`: the value stored under `key`, if any.
#[verifier::external_body]
fn table_get(t: &SizeTable, key: Key) -> (value: Option<u64>)
    ensures
        value == if table_entries(*t).contains_key(key) {
            Some(table_entries(*t)[key])
        } else {
            None
        },
{
    t.inner.get(&key).copied()
}

/// Calls `hashbrown::HashMap::insert`: stores `value` under `key` and
/// returns what was stored there before.
#[verifier::external_body]
fn table_insert(t: &mut SizeTable, key: Key, value: u64) -> (before: Option<u64>)
    ensures
        table_entries(*final(t)) == table_entries(*old(t)).insert(key, value),
        before == if table_entries(*old(t)).contains_key(key) {
            Some(table_entries(*old(t))[key])
        } else {
            None
        },
{
    t.inner.insert(key, value)
}

/// Calls `hashbrown::HashMap::remove`: takes `key` out and returns its value
/// if it was there.
#[verifier::external_body]
fn table_remove(t: &mut SizeTable, key: Key) -> (before: Option<u64>)
    ensures
        table_entries(*final(t)) == table_entries(*old(t)).remove(key),
        before == if table_entries(*old(t)).contains_key(key) {
            Some(table_entries(*old(t))[key])
        } else {
            None
        },
{
    t.inner.remove(&key)
}

/// Calls `hashbrown::HashMap::len`: the number of keys stored.
#[verifier::external_body]
fn table_len(t: &SizeTable) -> (n: usize)
    ensures
        table_entries(*t).dom().finite() ==> n == table_entries(*t).len(),
{
    t.inner.len()
}

/// The model of a [`FifoPolicy`].
///
/// `queue` holds a key once for each of its insertions that has not reached
/// the front yet. A key that was inserted again while resident is therefore
/// queued twice, and leaves when its first entry is taken.
pub struct FifoModel {
    pub capacity: u64,
    pub used: u64,
    pub sizes: Map<Key, u64>,
    pub queue: Seq<Key>,
}

/// The size that taking `key` from the front of the queue frees.
pub open spec fn freed(sizes: Map<Key, u64>, key: Key) -> u64 {
    if sizes.contains_key(key) {
        sizes[key]
    } else {
        0
    }
}

/// The bytes that emptying the queue would free: the sum of the resident
/// sizes, as long as every resident key is queued.
pub open spec fn resident_bytes(queue: Seq<Key>, sizes: Map<Key, u64>) -> nat
    decreases queue.len(),
{
    if queue.len() == 0 {
        0
    } else {
        freed(sizes, queue[0]) as nat + resident_bytes(
            queue.subrange(1, queue.len() as int),
            sizes.remove(queue[0]),
        )
    }
}

impl FifoModel {
    /// What the model requires of its parts.
    pub open spec fn wf(self) -> bool {
        &&& self.sizes.dom().finite()
        &&& forall|k: Key| self.sizes.contains_key(k) ==> self.queue.contains(k)
        &&& resident_bytes(self.queue, self.sizes) <= self.used
    }

    /// Whether `used` counts the resident bytes and nothing else.
    pub open spec fn exact(self) -> bool {
        self.used == resident_bytes(self.queue, self.sizes)
    }

    /// The model without the front of its queue.
    pub open spec fn pop_front(self) -> FifoModel {
        FifoModel {
            capacity: self.capacity,
            used: (self.used - freed(self.sizes, self.queue[0])) as u64,
            sizes: self.sizes.remove(self.queue[0]),
            queue: self.queue.subrange(1, self.queue.len() as int),
        }
    }

    /// Takes from the front until `size` more bytes fit or the queue is
    /// empty.
    pub open spec fn make_room(self, size: u64) -> FifoModel
        decreases self.queue.len(),
    {
        if self.used + size > self.capacity && self.queue.len() > 0 {
            self.pop_front().make_room(size)
        } else {
            self
        }
    }

    /// Queues `key` and records its size.
    pub open spec fn enqueue(self, key: Key, size: u64) -> FifoModel {
        FifoModel {
            capacity: self.capacity,
            used: (self.used + size) as u64,
            sizes: self.sizes.insert(key, size),
            queue: self.queue.push(key),
        }
    }
}

/// Queueing a key that is not resident frees nothing more.
proof fn lemma_push_absent(queue: Seq<Key>, sizes: Map<Key, u64>, key: Key)
    requires
        !sizes.contains_key(key),
    ensures
        resident_bytes(queue.push(key), sizes) == resident_bytes(queue, sizes),
    decreases queue.len(),
{
    let pushed = queue.push(key);
    if queue.len() == 0 {
        assert(pushed.subrange(1, pushed.len() as int) =~= Seq::<Key>::empty());
        assert(resident_bytes(pushed.subrange(1, pushed.len() as int), sizes.remove(key)) == 0);
    } else {
        let rest = queue.subrange(1, queue.len() as int);
        assert(pushed.subrange(1, pushed.len() as int) =~= rest.push(key));
        assert(pushed[0] == queue[0]);
        lemma_push_absent(rest, sizes.remove(queue[0]), key);
    }
}

/// Queueing a resident or absent key adds at most its size to the resident bytes, and exactly
/// its size if the key was not resident.
proof fn lemma_enqueue(queue: Seq<Key>, sizes: Map<Key, u64>, key: Key, size: u64)
    ensures
        resident_bytes(queue.push(key), sizes.insert(key, size)) <= resident_bytes(queue, sizes)
            + size,
        !sizes.contains_key(key) ==> resident_bytes(queue.push(key), sizes.insert(key, size))
            == resident_bytes(queue, sizes) + size,
    decreases queue.len(),
{
    let pushed = queue.push(key);
    let grown = sizes.insert(key, size);
    if queue.len() == 0 {
        assert(pushed.subrange(1, pushed.len() as int) =~= Seq::<Key>::empty());
        assert(resident_bytes(pushed.subrange(1, pushed.len() as int), grown.remove(key)) == 0);
    } else {
        let first = queue[0];
        let rest = queue.subrange(1, queue.len() as int);
        assert(pushed.subrange(1, pushed.len() as int) =~= rest.push(key));
        assert(pushed[0] == first);
        if first == key {
            assert(grown.remove(key) =~= sizes.remove(key));
            lemma_push_absent(rest, sizes.remove(key), key);
        } else {
            assert(grown.remove(first) =~= sizes.remove(first).insert(key, size));
            lemma_enqueue(rest, sizes.remove(first), key, size);
        }
    }
}

/// Taking the front of the queue keeps the model sound, and exact if it was.
proof fn lemma_pop_front(m: FifoModel)
    requires
        m.wf(),
        m.queue.len() > 0,
    ensures
        m.pop_front().wf(),
        m.pop_front().capacity == m.capacity,
        m.pop_front().used <= m.used,
        freed(m.sizes, m.queue[0]) <= m.used,
        m.exact() ==> m.pop_front().exact(),
        forall|k: Key| m.pop_front().sizes.contains_key(k) ==> m.sizes.contains_key(k),
{
    let popped = m.pop_front();
    assert forall|k: Key| popped.sizes.contains_key(k) implies popped.queue.contains(k) by {
        assert(m.sizes.contains_key(k) && k != m.queue[0]);
        assert(m.queue.contains(k));
        let i = choose|i: int| 0 <= i < m.queue.len() && m.queue[i] == k;
        assert(popped.queue[i - 1] == k);
    }
}

/// Making room keeps the model sound, and exact if it was; it ends with
/// room for `size` or with nothing resident.
proof fn lemma_make_room(m: FifoModel, size: u64)
    requires
        m.wf(),
    ensures
        m.make_room(size).wf(),
        m.make_room(size).capacity == m.capacity,
        m.make_room(size).used <= m.used,
        m.exact() ==> m.make_room(size).exact(),
        m.make_room(size).used + size <= m.capacity || m.make_room(size).queue.len() == 0,
        forall|k: Key| m.make_room(size).sizes.contains_key(k) ==> m.sizes.contains_key(k),
    decreases m.queue.len(),
{
    if m.used + size > m.capacity && m.queue.len() > 0 {
        lemma_pop_front(m);
        lemma_make_room(m.pop_front(), size);
    }
}

/// What an insertion does to the accounting.
proof fn lemma_put(m: FifoModel, key: Key, size: u64)
    requires
        m.wf(),
        m.used + size <= u64::MAX,
    ensures
        m.make_room(size).enqueue(key, size).wf(),
        m.make_room(size).enqueue(key, size).used <= m.used + size,
        m.exact() ==> m.make_room(size).enqueue(key, size).used <= larger(m.capacity, size),
        m.exact() && !m.sizes.contains_key(key) ==> m.make_room(size).enqueue(key, size).exact(),
{
    let roomy = m.make_room(size);
    let after = roomy.enqueue(key, size);
    lemma_make_room(m, size);
    lemma_enqueue(roomy.queue, roomy.sizes, key, size);
    assert(after.queue.last() == key);
    assert forall|k: Key| after.sizes.contains_key(k) implies after.queue.contains(k) by {
        if k != key {
            assert(roomy.sizes.contains_key(k));
            assert(roomy.queue.contains(k));
            let i = choose|i: int| 0 <= i < roomy.queue.len() && roomy.queue[i] == k;
            assert(after.queue[i] == k);
        }
    }
    if roomy.queue.len() == 0 {
        assert(resident_bytes(roomy.queue, roomy.sizes) == 0);
    }
}

/// A cache that evicts in order of arrival.
pub struct FifoPolicy {
    capacity: u64,
    size: u64,
    cache: SizeTable,
    queue: VecDeque<Key>,
}

impl View for FifoPolicy {
    type V = FifoModel;

    closed spec fn view(&self) -> FifoModel {
        FifoModel {
            capacity: self.capacity,
            used: self.size,
            sizes: table_entries(self.cache),
            queue: self.queue@,
        }
    }
}

impl FifoPolicy {
    /// The running total `used_size`.
    pub fn size(&self) -> (n: u64)
        ensures
            n == self@.used,
    {
        self.size
    }

    /// The number of resident keys.
    pub fn len(&self) -> (n: usize)
        requires
            self.wf(),
        ensures
            n == self@.sizes.len(),
    {
        table_len(&self.cache)
    }

    /// The number of queued entries.
    pub fn queue_len(&self) -> (n: usize)
        ensures
            n == self@.queue.len(),
    {
        self.queue.len()
    }
}

impl EvictPolicy for FifoPolicy {
    open spec fn wf(&self) -> bool {
        self@.wf()
    }

    open spec fn accepts(capacity: u64) -> bool {
        true
    }

    open spec fn model_new(capacity: u64) -> FifoModel {
        FifoModel { capacity, used: 0, sizes: Map::empty(), queue: Seq::empty() }
    }

    open spec fn model_get(m: FifoModel, key: Key) -> FifoModel {
        m
    }

    open spec fn model_put(m: FifoModel, key: Key, size: u64) -> FifoModel {
        m.make_room(size).enqueue(key, size)
    }

    open spec fn model_capacity(m: FifoModel) -> u64 {
        m.capacity
    }

    open spec fn model_used(m: FifoModel) -> u64 {
        m.used
    }

    open spec fn model_holds(m: FifoModel, key: Key) -> bool {
        m.sizes.contains_key(key)
    }

    open spec fn model_exact(m: FifoModel) -> bool {
        m.exact()
    }

    open spec fn model_wf(m: FifoModel) -> bool {
        m.wf()
    }

    proof fn lemma_wf_model(&self) {
    }

    proof fn law_new(capacity: u64) {
    }

    proof fn law_get(m: FifoModel, key: Key) {
    }

    proof fn law_put(m: FifoModel, key: Key, size: u64) {
        lemma_make_room(m, size);
        lemma_put(m, key, size);
    }

    proof fn law_put_that_fits(m: FifoModel, key: Key, size: u64) {
    }

    fn accepts_capacity(capacity: u64) -> (ok: bool) {
        true
    }

    fn new(capacity: u64) -> (p: Self) {
        FifoPolicy { capacity, size: 0, cache: table_new(), queue: VecDeque::new() }
    }

    fn get(&mut self, key: Key) -> (found: Option<()>) {
        match table_get(&self.cache, key) {
            Some(_) => Some(()),
            None => None,
        }
    }

    fn put(&mut self, key: Key, size: u64) {
        while self.size + size > self.capacity
            invariant
                self.wf(),
                self.capacity == old(self).capacity,
                self.size <= old(self).size,
                old(self).size + size <= u64::MAX,
                self@.make_room(size) == old(self)@.make_room(size),
            ensures
                self@ == old(self)@.make_room(size),
            decreases self.queue@.len(),
        {
            proof {
                if self.queue@.len() > 0 {
                    lemma_pop_front(self@);
                }
            }
            if let Some(old_key) = self.queue.pop_front() {
                if let Some(old_size) = table_remove(&mut self.cache, old_key) {
                    self.size -= old_size;
                }
            } else {
                break ;
            }
        }
        table_insert(&mut self.cache, key, size);
        self.queue.push_back(key);
        self.size += size;
        proof {
            lemma_make_room(old(self)@, size);
            lemma_put(old(self)@, key, size);
            if old(self)@.used + size <= old(self)@.capacity {
                Self::law_put_that_fits(old(self)@, key, size);
            }
        }
    }
}

} // verus!
