//! Least recently used: what was used longest ago leaves first.
use vstd::prelude::*;
use crate::Key;
use crate::evict_policy::EvictPolicy;
use crate::evict_policy::larger;

verus! {

/// Declares `lru::LruCache`, whose inside the verifier does not see.
#[verifier::external_type_specification]
#[verifier::external_body]
#[verifier::reject_recursive_types(K)]
#[verifier::reject_recursive_types(V)]
#[verifier::reject_recursive_types(S)]
pub struct ExLruCache<K, V, S>(lru::LruCache<K, V, S>);

/// Declares `hashbrown::DefaultHashBuilder`, the hasher that an
/// `lru::LruCache` has where none is named.
#[verifier::external_type_specification]
#[verifier::external_body]
pub struct ExDefaultHashBuilder(hashbrown::DefaultHashBuilder);

/// What an `lru::LruCache` holds: its keys with their values, the least
/// recently used first.
pub uninterp spec fn lru_entries(c: lru::LruCache<Key, u64>) -> Seq<(Key, u64)>;

/// The number of entries an `lru::LruCache` was made to hold.
pub uninterp spec fn lru_limit(c: lru::LruCache<Key, u64>) -> nat;

/// Whether some entry has this key.
pub open spec fn holds_key(entries: Seq<(Key, u64)>, key: Key) -> bool {
    exists|i: int| 0 <= i < entries.len() && (#[trigger] entries[i]).0 == key
}

/// The position of an entry with this key.
pub open spec fn key_index(entries: Seq<(Key, u64)>, key: Key) -> int {
    choose|i: int| 0 <= i < entries.len() && (#[trigger] entries[i]).0 == key
}

/// Calls `lru::LruCache::unbounded`: an empty cache whose limit is the
/// largest `usize`, so that it drops nothing on its own account.
#[verifier::external_body]
fn lru_new() -> (c: lru::LruCache<Key, u64>)
    ensures
        lru_entries(c).len() == 0,
        lru_limit(c) == usize::MAX,
{
    lru::LruCache::unbounded()
}

/// Calls `lru::LruCache::get`: the value of `key` if it is there, and then
/// its entry becomes the most recently used; nothing else moves.
#[verifier::external_body]
fn lru_get(c: &mut lru::LruCache<Key, u64>, key: Key) -> (value: Option<u64>)
    ensures
        lru_limit(*final(c)) == lru_limit(*old(c)),
        match value {
            Some(v) => exists|i: int|
                0 <= i < lru_entries(*old(c)).len() && #[trigger] lru_entries(*old(c))[i] == (key, v)
                    && lru_entries(*final(c)) == lru_entries(*old(c)).remove(i).push((key, v)),
            None => !holds_key(lru_entries(*old(c)), key) && lru_entries(*final(c)) == lru_entries(
                *old(c),
            ),
        },
{
    c.get(&key).copied()
}

/// Calls `lru::LruCache::pop_lru`: takes the least recently used entry out
/// and returns it, or returns `None` from an empty cache.
#[verifier::external_body]
fn lru_pop_lru(c: &mut lru::LruCache<Key, u64>) -> (entry: Option<(Key, u64)>)
    ensures
        lru_limit(*final(c)) == lru_limit(*old(c)),
        match entry {
            Some(e) => lru_entries(*old(c)).len() > 0 && e == lru_entries(*old(c))[0]
                && lru_entries(*final(c)) == lru_entries(*old(c)).subrange(
                1,
                lru_entries(*old(c)).len() as int,
            ),
            None => lru_entries(*old(c)).len() == 0 && lru_entries(*final(c)) == lru_entries(
                *old(c),
            ),
        },
{
    c.pop_lru()
}

/// Calls `lru::LruCache::put`. A key that is there gets the new value,
/// becomes the most recently used, and its old value is returned. A new key
/// is added as the most recently used, after the least recently used entry
/// has been dropped if the cache held as many entries as its limit. The
/// cache never holds as many entries as the largest `usize`: the table that
/// finds them lays them out in no more than `isize::MAX` bytes.
#[verifier::external_body]
fn lru_put(c: &mut lru::LruCache<Key, u64>, key: Key, value: u64) -> (before: Option<u64>)
    ensures
        lru_limit(*final(c)) == lru_limit(*old(c)),
        lru_entries(*final(c)).len() < usize::MAX,
        match before {
            Some(v) => exists|i: int|
                0 <= i < lru_entries(*old(c)).len() && #[trigger] lru_entries(*old(c))[i] == (key, v)
                    && lru_entries(*final(c)) == lru_entries(*old(c)).remove(i).push((key, value)),
            None => !holds_key(lru_entries(*old(c)), key) && lru_entries(*final(c)) == (if lru_entries(
                *old(c),
            ).len() == lru_limit(*old(c)) {
                lru_entries(*old(c)).subrange(1, lru_entries(*old(c)).len() as int)
            } else {
                lru_entries(*old(c))
            }).push((key, value)),
        },
{
    c.put(key, value)
}

/// The sum of the sizes of the entries.
pub open spec fn entry_bytes(entries: Seq<(Key, u64)>) -> nat
    decreases entries.len(),
{
    if entries.len() == 0 {
        0
    } else {
        entries[0].1 as nat + entry_bytes(entries.subrange(1, entries.len() as int))
    }
}

/// No key has two entries.
pub open spec fn distinct_keys(entries: Seq<(Key, u64)>) -> bool {
    forall|i: int, j: int|
        0 <= i < j < entries.len() ==> (#[trigger] entries[i]).0 != (#[trigger] entries[j]).0
}

/// The entries with the one for `key`, if any, moved to the most recently
/// used end.
pub open spec fn touched(entries: Seq<(Key, u64)>, key: Key) -> Seq<(Key, u64)> {
    if holds_key(entries, key) {
        let i = key_index(entries, key);
        entries.remove(i).push(entries[i])
    } else {
        entries
    }
}

/// The model of an [`LruPolicy`]: the entries in the order in which they
/// will leave.
pub struct LruModel {
    pub capacity: u64,
    pub used: u64,
    pub entries: Seq<(Key, u64)>,
}

impl LruModel {
    /// What the model requires of its parts.
    pub open spec fn wf(self) -> bool {
        &&& distinct_keys(self.entries)
        &&& entry_bytes(self.entries) <= self.used
    }

    /// Whether `used` counts the resident bytes and nothing else.
    pub open spec fn exact(self) -> bool {
        self.used == entry_bytes(self.entries)
    }

    /// The model without its least recently used entry.
    pub open spec fn pop_front(self) -> LruModel {
        LruModel {
            capacity: self.capacity,
            used: (self.used - self.entries[0].1) as u64,
            entries: self.entries.subrange(1, self.entries.len() as int),
        }
    }

    /// Drops least recently used entries until `size` more bytes fit or
    /// nothing is left.
    pub open spec fn make_room(self, size: u64) -> LruModel
        decreases self.entries.len(),
    {
        if self.used + size > self.capacity && self.entries.len() > 0 {
            self.pop_front().make_room(size)
        } else {
            self
        }
    }

    /// Stores `key` as the most recently used entry, in place of the entry
    /// it had, if any.
    pub open spec fn store(self, key: Key, size: u64) -> LruModel {
        let kept = if holds_key(self.entries, key) {
            self.entries.remove(key_index(self.entries, key))
        } else {
            self.entries
        };
        LruModel {
            capacity: self.capacity,
            used: (self.used + size) as u64,
            entries: kept.push((key, size)),
        }
    }
}

proof fn lemma_bytes_push(entries: Seq<(Key, u64)>, e: (Key, u64))
    ensures
        entry_bytes(entries.push(e)) == entry_bytes(entries) + e.1,
    decreases entries.len(),
{
    let pushed = entries.push(e);
    if entries.len() == 0 {
        assert(pushed.subrange(1, pushed.len() as int) =~= Seq::<(Key, u64)>::empty());
        assert(entry_bytes(pushed.subrange(1, pushed.len() as int)) == 0);
    } else {
        let rest = entries.subrange(1, entries.len() as int);
        assert(pushed.subrange(1, pushed.len() as int) =~= rest.push(e));
        lemma_bytes_push(rest, e);
    }
}

proof fn lemma_bytes_remove(entries: Seq<(Key, u64)>, i: int)
    requires
        0 <= i < entries.len(),
    ensures
        entry_bytes(entries.remove(i)) + entries[i].1 == entry_bytes(entries),
    decreases entries.len(),
{
    let rest = entries.subrange(1, entries.len() as int);
    let cut = entries.remove(i);
    if i == 0 {
        assert(cut =~= rest);
    } else {
        assert(cut.subrange(1, cut.len() as int) =~= rest.remove(i - 1));
        assert(cut[0] == entries[0]);
        lemma_bytes_remove(rest, i - 1);
    }
}

/// Among entries with distinct keys, an entry is found by its key.
proof fn lemma_key_index(entries: Seq<(Key, u64)>, i: int)
    requires
        distinct_keys(entries),
        0 <= i < entries.len(),
    ensures
        holds_key(entries, entries[i].0),
        key_index(entries, entries[i].0) == i,
{
    let key = entries[i].0;
    assert(entries[i].0 == key);
    let j = key_index(entries, key);
    assert(0 <= j < entries.len() && entries[j].0 == key);
    if j < i {
        assert(entries[j].0 != entries[i].0);
    } else if i < j {
        assert(entries[i].0 != entries[j].0);
    }
}

/// Moving an entry to the end, with a new size or the same, keeps the keys
/// distinct.
proof fn lemma_move_keeps_distinct(entries: Seq<(Key, u64)>, i: int, size: u64)
    requires
        distinct_keys(entries),
        0 <= i < entries.len(),
    ensures
        distinct_keys(entries.remove(i).push((entries[i].0, size))),
        forall|k: Key|
            holds_key(entries.remove(i).push((entries[i].0, size)), k) == holds_key(entries, k),
{
    let key = entries[i].0;
    let moved = entries.remove(i).push((key, size));
    assert forall|a: int, b: int| 0 <= a < b < moved.len() implies (#[trigger] moved[a]).0 != (
    #[trigger] moved[b]).0 by {
        let from_a = if a < i { a } else { a + 1 };
        assert(moved[a] == entries[from_a]);
        if b < moved.len() - 1 {
            let from_b = if b < i { b } else { b + 1 };
            assert(moved[b] == entries[from_b]);
            assert(entries[from_a].0 != entries[from_b].0);
        } else {
            if from_a < i {
                assert(entries[from_a].0 != entries[i].0);
            } else {
                assert(entries[i].0 != entries[from_a].0);
            }
        }
    }
    assert forall|k: Key| holds_key(moved, k) == holds_key(entries, k) by {
        if holds_key(entries, k) {
            let j = key_index(entries, k);
            if j == i {
                assert(moved[moved.len() - 1].0 == k);
            } else {
                let to = if j < i { j } else { j - 1 };
                assert(moved[to] == entries[j]);
                assert(moved[to].0 == k);
            }
        }
        if holds_key(moved, k) {
            let j = key_index(moved, k);
            if j == moved.len() - 1 {
                assert(entries[i].0 == k);
            } else {
                let from = if j < i { j } else { j + 1 };
                assert(moved[j] == entries[from]);
                assert(entries[from].0 == k);
            }
        }
    }
}

/// Adding an entry for a key that has none keeps the keys distinct.
proof fn lemma_push_keeps_distinct(entries: Seq<(Key, u64)>, e: (Key, u64))
    requires
        distinct_keys(entries),
        !holds_key(entries, e.0),
    ensures
        distinct_keys(entries.push(e)),
        holds_key(entries.push(e), e.0),
{
    let pushed = entries.push(e);
    assert forall|a: int, b: int| 0 <= a < b < pushed.len() implies (#[trigger] pushed[a]).0 != (
    #[trigger] pushed[b]).0 by {
        assert(pushed[a] == entries[a]);
        if b < entries.len() {
            assert(pushed[b] == entries[b]);
        } else {
            assert(entries[a].0 != e.0);
        }
    }
    assert(pushed[pushed.len() - 1].0 == e.0);
}

/// Dropping the first entry keeps the keys distinct and adds no key.
proof fn lemma_rest_keeps_distinct(entries: Seq<(Key, u64)>)
    requires
        distinct_keys(entries),
        entries.len() > 0,
    ensures
        distinct_keys(entries.subrange(1, entries.len() as int)),
        forall|k: Key|
            holds_key(entries.subrange(1, entries.len() as int), k) ==> holds_key(entries, k),
{
    let rest = entries.subrange(1, entries.len() as int);
    assert forall|a: int, b: int| 0 <= a < b < rest.len() implies (#[trigger] rest[a]).0 != (
    #[trigger] rest[b]).0 by {
        assert(rest[a] == entries[a + 1]);
        assert(rest[b] == entries[b + 1]);
    }
    assert forall|k: Key| holds_key(rest, k) implies holds_key(entries, k) by {
        let j = key_index(rest, k);
        assert(rest[j] == entries[j + 1]);
        assert(entries[j + 1].0 == k);
    }
}

/// Dropping the least recently used entry keeps the model sound, and exact
/// if it was.
proof fn lemma_pop_front(m: LruModel)
    requires
        m.wf(),
        m.entries.len() > 0,
    ensures
        m.pop_front().wf(),
        m.pop_front().capacity == m.capacity,
        m.pop_front().used <= m.used,
        m.entries[0].1 <= m.used,
        m.exact() ==> m.pop_front().exact(),
        forall|k: Key| holds_key(m.pop_front().entries, k) ==> holds_key(m.entries, k),
{
    lemma_rest_keeps_distinct(m.entries);
}

/// Making room keeps the model sound, and exact if it was; it ends with
/// room for `size` or with nothing resident, and drops nothing if there is
/// room to begin with.
proof fn lemma_make_room(m: LruModel, size: u64)
    requires
        m.wf(),
    ensures
        m.make_room(size).wf(),
        m.make_room(size).capacity == m.capacity,
        m.make_room(size).used <= m.used,
        m.exact() ==> m.make_room(size).exact(),
        m.make_room(size).used + size <= m.capacity || m.make_room(size).entries.len() == 0,
        m.used + size <= m.capacity ==> m.make_room(size) == m,
        forall|k: Key| holds_key(m.make_room(size).entries, k) ==> holds_key(m.entries, k),
    decreases m.entries.len(),
{
    if m.used + size > m.capacity && m.entries.len() > 0 {
        lemma_pop_front(m);
        lemma_make_room(m.pop_front(), size);
    }
}

/// A lookup moves one entry and changes nothing else.
proof fn lemma_touched(m: LruModel, key: Key)
    requires
        m.wf(),
    ensures
        distinct_keys(touched(m.entries, key)),
        touched(m.entries, key).len() == m.entries.len(),
        entry_bytes(touched(m.entries, key)) == entry_bytes(m.entries),
        forall|k: Key| holds_key(touched(m.entries, key), k) == holds_key(m.entries, k),
{
    if holds_key(m.entries, key) {
        let i = key_index(m.entries, key);
        let e = m.entries[i];
        assert(m.entries.remove(i).push(e) == m.entries.remove(i).push((e.0, e.1)));
        lemma_move_keeps_distinct(m.entries, i, e.1);
        lemma_bytes_remove(m.entries, i);
        lemma_bytes_push(m.entries.remove(i), e);
    }
}

/// Storing a key keeps the model sound and counts the new size in full. A
/// key that was not resident is added and nothing leaves.
proof fn lemma_store(m: LruModel, key: Key, size: u64)
    requires
        m.wf(),
        m.used + size <= u64::MAX,
    ensures
        m.store(key, size).wf(),
        m.store(key, size).used == m.used + size,
        holds_key(m.store(key, size).entries, key),
        !holds_key(m.entries, key) ==> m.store(key, size).entries == m.entries.push((key, size)),
        !holds_key(m.entries, key) ==> entry_bytes(m.store(key, size).entries) == entry_bytes(
            m.entries,
        ) + size,
        forall|k: Key| holds_key(m.entries, k) ==> holds_key(m.store(key, size).entries, k),
{
    let after = m.store(key, size).entries;
    if holds_key(m.entries, key) {
        let i = key_index(m.entries, key);
        lemma_move_keeps_distinct(m.entries, i, size);
        lemma_bytes_remove(m.entries, i);
        lemma_bytes_push(m.entries.remove(i), (key, size));
    } else {
        lemma_push_keeps_distinct(m.entries, (key, size));
        lemma_bytes_push(m.entries, (key, size));
        assert forall|k: Key| holds_key(m.entries, k) implies holds_key(after, k) by {
            let j = key_index(m.entries, k);
            assert(after[j] == m.entries[j]);
            assert(after[j].0 == k);
        }
    }
    assert(after[after.len() - 1].0 == key);
}

/// What an insertion does to the accounting.
proof fn lemma_put(m: LruModel, key: Key, size: u64)
    requires
        m.wf(),
        m.used + size <= u64::MAX,
    ensures
        m.make_room(size).store(key, size).wf(),
        m.make_room(size).store(key, size).capacity == m.capacity,
        holds_key(m.make_room(size).store(key, size).entries, key),
        m.make_room(size).store(key, size).used <= m.used + size,
        m.exact() ==> m.make_room(size).store(key, size).used <= larger(m.capacity, size),
        m.exact() && !holds_key(m.entries, key) ==> m.make_room(size).store(key, size).exact(),
{
    let roomy = m.make_room(size);
    lemma_make_room(m, size);
    lemma_store(roomy, key, size);
}

/// A cache that evicts what was used longest ago.
pub struct LruPolicy {
    capacity: u64,
    size: u64,
    cache: lru::LruCache<Key, u64>,
}

impl View for LruPolicy {
    type V = LruModel;

    closed spec fn view(&self) -> LruModel {
        LruModel { capacity: self.capacity, used: self.size, entries: lru_entries(self.cache) }
    }
}

impl LruPolicy {
    /// The running total `used_size`.
    pub fn size(&self) -> (n: u64)
        ensures
            n == self@.used,
    {
        self.size
    }
}

impl EvictPolicy for LruPolicy {
    closed spec fn wf(&self) -> bool {
        &&& self@.wf()
        &&& lru_limit(self.cache) == usize::MAX
        &&& lru_entries(self.cache).len() < usize::MAX
    }

    /// A capacity of at least one byte that fits `usize`.
    open spec fn accepts(capacity: u64) -> bool {
        0 < capacity <= usize::MAX
    }

    open spec fn model_new(capacity: u64) -> LruModel {
        LruModel { capacity, used: 0, entries: Seq::empty() }
    }

    open spec fn model_get(m: LruModel, key: Key) -> LruModel {
        LruModel { capacity: m.capacity, used: m.used, entries: touched(m.entries, key) }
    }

    open spec fn model_put(m: LruModel, key: Key, size: u64) -> LruModel {
        m.make_room(size).store(key, size)
    }

    open spec fn model_capacity(m: LruModel) -> u64 {
        m.capacity
    }

    open spec fn model_used(m: LruModel) -> u64 {
        m.used
    }

    open spec fn model_holds(m: LruModel, key: Key) -> bool {
        holds_key(m.entries, key)
    }

    open spec fn model_exact(m: LruModel) -> bool {
        m.exact()
    }

    open spec fn model_wf(m: LruModel) -> bool {
        m.wf()
    }

    proof fn lemma_wf_model(&self) {
    }

    proof fn law_new(capacity: u64) {
    }

    proof fn law_get(m: LruModel, key: Key) {
        lemma_touched(m, key);
    }

    proof fn law_put(m: LruModel, key: Key, size: u64) {
        lemma_put(m, key, size);
    }

    proof fn law_put_that_fits(m: LruModel, key: Key, size: u64) {
        lemma_make_room(m, size);
        lemma_store(m, key, size);
    }

    fn accepts_capacity(capacity: u64) -> (ok: bool) {
        0 < capacity && capacity <= usize::MAX as u64
    }

    fn new(capacity: u64) -> (p: Self) {
        let p = LruPolicy { capacity, size: 0, cache: lru_new() };
        assert(p@.entries =~= Seq::<(Key, u64)>::empty());
        p
    }

    fn get(&mut self, key: Key) -> (found: Option<()>) {
        let ghost before = self@;
        let found = match lru_get(&mut self.cache, key) {
            Some(v) => {
                proof {
                    let i = choose|i: int|
                        0 <= i < before.entries.len() && #[trigger] before.entries[i] == (key, v)
                            && self@.entries == before.entries.remove(i).push((key, v));
                    lemma_key_index(before.entries, i);
                }
                Some(())
            },
            None => None,
        };
        proof {
            lemma_touched(before, key);
        }
        found
    }

    fn put(&mut self, key: Key, size: u64) {
        while self.size + size > self.capacity
            invariant
                self.wf(),
                self.capacity == old(self).capacity,
                self.size <= old(self).size,
                old(self).size + size <= u64::MAX,
                self@.make_room(size) == old(self)@.make_room(size),
            ensures
                self@ == old(self)@.make_room(size),
            decreases self@.entries.len(),
        {
            proof {
                if self@.entries.len() > 0 {
                    lemma_pop_front(self@);
                }
            }
            if let Some((_, evicted_size)) = lru_pop_lru(&mut self.cache) {
                self.size -= evicted_size;
            } else {
                break ;
            }
        }
        let ghost roomy = self@;
        let replaced = lru_put(&mut self.cache, key, size);
        self.size += size;
        proof {
            lemma_make_room(old(self)@, size);
            if let Some(v) = replaced {
                let i = choose|i: int|
                    0 <= i < roomy.entries.len() && #[trigger] roomy.entries[i] == (key, v)
                        && lru_entries(self.cache) == roomy.entries.remove(i).push((key, size));
                lemma_key_index(roomy.entries, i);
            }
            assert(self@ == roomy.store(key, size));
            lemma_put(old(self)@, key, size);
            if old(self)@.used + size <= old(self)@.capacity {
                Self::law_put_that_fits(old(self)@, key, size);
            }
        }
    }
}

} // verus!
