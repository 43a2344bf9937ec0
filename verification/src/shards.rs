//! Hash-based sampling of a trace at a fixed rate.
//!
//! A key is observed when its hash, reduced modulo [`MODULUS`], falls below the
//! sampler's threshold. The rate is `threshold / MODULUS`; it is kept as that
//! pair of integers, and everything derived from it is computed exactly.
use vstd::prelude::*;
use crate::Key;

verus! {

/// Number of slots the hash of a key is reduced into.
pub const MODULUS: u64 = 1000;

/// The 128-bit MurmurHash3 of the eight little-endian bytes of `key`, with
/// seed zero, as `fasthash::murmur3::hash128` computes it on a little-endian
/// target whose pointers are `word_bits` wide.
pub uninterp spec fn murmur3_hash128(key: u64, word_bits: u32) -> u128;

/// The slot in `0..MODULUS` that `key` hashes into.
pub open spec fn key_slot(key: Key) -> u64 {
    (murmur3_hash128(key, usize::BITS) % (MODULUS as u128)) as u64
}

/// Whether a sampler with this threshold observes `key`.
pub open spec fn key_sampled(key: Key, threshold: u64) -> bool {
    key_slot(key) < threshold
}

/// `value * threshold / MODULUS`, rounded down, and `u64::MAX` where that
/// does not fit.
pub open spec fn scaled(value: u64, threshold: u64) -> u64 {
    let exact = (value as int * threshold as int) / (MODULUS as int);
    if exact > u64::MAX {
        u64::MAX
    } else {
        exact as u64
    }
}

/// What holds of the counters of any sampler: it has observed no more
/// accesses than it was shown, and all of them if its threshold leaves no
/// slot out.
pub open spec fn counts_consistent(threshold: u64, sampled: u64, total: u64) -> bool {
    &&& sampled <= total
    &&& threshold >= MODULUS ==> sampled == total
}

/// The counters and the threshold of a sampler.
pub struct SamplerModel {
    pub threshold: u64,
    pub sampled: u64,
    pub total: u64,
}

impl SamplerModel {
    /// The sampler after it was shown `key`.
    pub open spec fn shown(self, key: Key) -> SamplerModel {
        SamplerModel {
            threshold: self.threshold,
            sampled: if key_sampled(key, self.threshold) {
                (self.sampled + 1) as u64
            } else {
                self.sampled
            },
            total: (self.total + 1) as u64,
        }
    }

    /// The sampler after it was shown the keys one after the other.
    pub open spec fn shown_all(self, keys: Seq<Key>) -> SamplerModel
        decreases keys.len(),
    {
        if keys.len() == 0 {
            self
        } else {
            self.shown_all(keys.drop_last()).shown(keys.last())
        }
    }
}

/// A sampler gives a key the same answer whatever it was shown before: the
/// answer depends on the key and the threshold, and showing keys leaves the
/// threshold as it is.
pub proof fn law_sampling_is_stable(s: SamplerModel, keys: Seq<Key>, key: Key)
    ensures
        s.shown_all(keys).threshold == s.threshold,
        key_sampled(key, s.shown_all(keys).threshold) == key_sampled(key, s.threshold),
    decreases keys.len(),
{
    if keys.len() > 0 {
        law_sampling_is_stable(s, keys.drop_last(), key);
    }
}

/// Calls `fasthash::murmur3::hash128` on the little-endian bytes of `key`.
/// The result is taken to depend on the key and on the target's pointer
/// width alone: that function hands the bytes to one of two fixed
/// MurmurHash3 routines, chosen by pointer width, with seed zero. The
/// routines store the two halves of the result as machine words, so a
/// big-endian target gets them in the other order; the contract is for
/// little-endian targets.
#[verifier::external_body]
fn hash(key: Key) -> (h: u128)
    ensures
        h == murmur3_hash128(key, usize::BITS),
{
    fasthash::murmur3::hash128(key.to_le_bytes())
}

/// The slot of a hash, if it falls below the threshold.
pub open spec fn hash_slot_below(hash: u128, threshold: u64) -> Option<u64> {
    if hash % (MODULUS as u128) < threshold {
        Some((hash % (MODULUS as u128)) as u64)
    } else {
        None
    }
}

/// Reduces a hash to its slot and tells whether the slot falls below the
/// threshold.
pub fn slot_below(hash: u128, threshold: u64) -> (slot: Option<u64>)
    ensures
        slot == hash_slot_below(hash, threshold),
{
    let t = (hash % (MODULUS as u128)) as u64;
    if t < threshold {
        Some(t)
    } else {
        None
    }
}

/// The number of accesses that a sampler of this threshold observes on
/// average among `total`: `threshold * total / MODULUS`, as numerator and
/// denominator.
pub open spec fn expected_count(total: u64, threshold: u64) -> (u128, u64) {
    ((threshold * total) as u128, MODULUS)
}

/// Computes [`expected_count`].
pub fn expected_of(total: u64, threshold: u64) -> (expected: (u128, u64))
    ensures
        expected == expected_count(total, threshold),
{
    assert(threshold * total <= u64::MAX * u64::MAX) by (nonlinear_arith)
        requires
            0 <= threshold <= u64::MAX,
            0 <= total <= u64::MAX,
    ;
    ((threshold as u128) * (total as u128), MODULUS)
}

/// Computes [`scaled`].
pub fn scale_by_threshold(value: u64, threshold: u64) -> (r: u64)
    ensures
        r == scaled(value, threshold),
{
    assert(value as int * threshold as int <= u64::MAX as int * u64::MAX as int) by (nonlinear_arith)
        requires
            0 <= value <= u64::MAX,
            0 <= threshold <= u64::MAX,
    ;
    let wide: u128 = (value as u128) * (threshold as u128) / (MODULUS as u128);
    if wide > u64::MAX as u128 {
        u64::MAX
    } else {
        wide as u64
    }
}

/// A sampler: decides per key whether an access is observed, counts what it
/// was shown and what it observed, and scales sizes by its rate.
pub trait Shards: Send {
    /// The threshold below which a key's slot must fall.
    spec fn threshold(&self) -> u64;

    /// Number of accesses observed so far.
    spec fn sampled(&self) -> u64;

    /// Number of accesses shown so far.
    spec fn total(&self) -> u64;

    fn get_global_t(&self) -> (t: u64)
        ensures
            t == self.threshold(),
    ;

    fn get_sampled_count(&self) -> (n: u64)
        ensures
            n == self.sampled(),
    ;

    /// The number of accesses a sampler of this rate observes on average
    /// among as many as this one was shown: the rate times that number, as
    /// numerator and denominator.
    fn get_expected_count(&self) -> (expected: (u128, u64))
        ensures
            expected == expected_count(self.total(), self.threshold()),
    ;

    /// The sampling rate as a fraction: numerator, then denominator.
    fn get_rate(&self) -> (rate: (u64, u64))
        ensures
            rate == (self.threshold(), MODULUS),
    {
        (self.get_global_t(), MODULUS)
    }

    /// Counts the access and tells whether it is observed. The answer depends
    /// on the key and the threshold alone, so every access to one key gets
    /// the same answer for as long as the sampler lives.
    fn sample(&mut self, access: &Key) -> (observed: bool)
        requires
            counts_consistent(old(self).threshold(), old(self).sampled(), old(self).total()),
            old(self).total() < u64::MAX,
        ensures
            observed == key_sampled(*access, old(self).threshold()),
            final(self).threshold() == old(self).threshold(),
            final(self).total() == old(self).total() + 1,
            final(self).sampled() == old(self).sampled() + if observed { 1int } else { 0int },
            counts_consistent(final(self).threshold(), final(self).sampled(), final(self).total()),
    ;

    /// The slot of `key` if the sampler observes the key.
    fn sample_key(&self, key: Key) -> (slot: Option<u64>)
        ensures
            slot == if key_sampled(key, self.threshold()) {
                Some(key_slot(key))
            } else {
                None
            },
    {
        slot_below(hash(key), self.get_global_t())
    }

    /// Shrinks `size` by the sampling rate.
    fn scale(&self, size: u64) -> (r: u64)
        ensures
            r == scaled(size, self.threshold()),
    {
        scale_by_threshold(size, self.get_global_t())
    }
}

/// The threshold and the counters of a sampler.
pub open spec fn sampler_state<S: Shards>(s: S) -> SamplerModel {
    SamplerModel { threshold: s.threshold(), sampled: s.sampled(), total: s.total() }
}

/// A sampler whose threshold is fixed when it is made.
pub struct ShardsFixedRate {
    global_t: u64,
    sampled_count: u64,
    total_count: u64,
}

impl ShardsFixedRate {
    pub fn new(global_t: u64) -> (s: Self)
        ensures
            s.threshold() == global_t,
            s.sampled() == 0,
            s.total() == 0,
    {
        ShardsFixedRate { global_t, sampled_count: 0, total_count: 0 }
    }

    /// A fresh sampler for the threshold if there is one.
    pub fn create_shards(threshold: Option<u64>) -> (made: Option<ShardsFixedRate>)
        ensures
            threshold is Some == made is Some,
            threshold matches Some(t) ==> {
                &&& made->0.threshold() == t
                &&& made->0.sampled() == 0
                &&& made->0.total() == 0
            },
    {
        match threshold {
            Some(t) => Some(ShardsFixedRate::new(t)),
            None => None,
        }
    }
}

impl Shards for ShardsFixedRate {
    closed spec fn threshold(&self) -> u64 {
        self.global_t
    }

    closed spec fn sampled(&self) -> u64 {
        self.sampled_count
    }

    closed spec fn total(&self) -> u64 {
        self.total_count
    }

    fn get_global_t(&self) -> (t: u64) {
        self.global_t
    }

    fn get_sampled_count(&self) -> (n: u64) {
        self.sampled_count
    }

    fn get_expected_count(&self) -> (expected: (u128, u64)) {
        expected_of(self.total_count, self.global_t)
    }

    fn sample(&mut self, access: &Key) -> (observed: bool) {
        self.total_count += 1;
        if self.sample_key(*access).is_none() {
            return false;
        }
        self.sampled_count += 1;
        true
    }
}

} // verus!
