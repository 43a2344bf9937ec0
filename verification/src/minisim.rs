//! One trace replayed against a ladder of caches of one policy.
//!
//! Cache `i` of `n` simulates the capacity `(i + 2) * (max_cache_size / n)`,
//! shrunk by the sampling rate if a sampler is present. The curve reports
//! cache `i` under the capacity `(i + 1) * (max_cache_size / n)`, one step
//! below what it simulated and never shrunk.
use vstd::prelude::*;
use crate::AccessRecord;
use crate::Key;
use crate::NUM_CACHE_SIZE;
use crate::evict_policy::EvictPolicy;
use crate::evict_policy::larger;
use crate::shards::MODULUS;
use crate::shards::SamplerModel;
use crate::shards::Shards;
use crate::shards::counts_consistent;
use crate::shards::expected_count;
use crate::shards::key_sampled;
use crate::shards::sampler_state;
use crate::shards::scaled;

verus! {

/// The model of a [`MiniSim`] over caches with model `M`.
pub struct MiniSimModel<M> {
    pub max_cache_size: u64,
    pub caches: Seq<M>,
    pub hits: Seq<u64>,
    pub access_count: u64,
    pub sampler: Option<SamplerModel>,
}

/// A share of the accesses, as the fraction
/// `numerator * numerator_factor / (denominator * denominator_factor)`, not
/// reduced. The factors keep the products of three counters out of the
/// fields, which could not hold them.
#[derive(Clone, Copy, Debug, PartialEq, Eq, Structural)]
pub struct Ratio {
    pub numerator: u128,
    pub numerator_factor: u64,
    pub denominator: u128,
    pub denominator_factor: u64,
}

impl Ratio {
    /// What is above the line.
    pub open spec fn top(self) -> nat {
        (self.numerator * self.numerator_factor) as nat
    }

    /// What is below the line.
    pub open spec fn bottom(self) -> nat {
        (self.denominator * self.denominator_factor) as nat
    }
}

/// A point of a miss-ratio curve.
#[derive(Clone, Copy, Debug, PartialEq, Eq, Structural)]
pub struct CurvePoint {
    pub capacity: u64,
    pub miss_ratio: Ratio,
}

/// The size an access is accounted with: a size of zero counts as one.
pub open spec fn normalized_size(size: u32) -> u64 {
    if size == 0 {
        1
    } else {
        size as u64
    }
}

/// The model of the sampler, if there is one.
pub open spec fn sampler_model<S: Shards>(shards: Option<S>) -> Option<SamplerModel> {
    match shards {
        Some(s) => Some(sampler_state(s)),
        None => None,
    }
}

/// The threshold of the sampler, if there is one.
pub open spec fn threshold_of(sampler: Option<SamplerModel>) -> Option<u64> {
    match sampler {
        Some(s) => Some(s.threshold),
        None => None,
    }
}

/// The capacity that cache `i` of `num_caches` simulates.
pub open spec fn simulated_capacity(
    max_cache_size: u64,
    num_caches: u64,
    i: int,
    threshold: Option<u64>,
) -> u64 {
    let nominal = ((i + 2) * (max_cache_size / num_caches)) as u64;
    match threshold {
        Some(t) => scaled(nominal, t),
        None => nominal,
    }
}

/// The capacity under which the curve reports cache `i` of `num_caches`.
pub open spec fn reported_capacity(max_cache_size: u64, num_caches: u64, i: int) -> u64 {
    ((i + 1) * (max_cache_size / num_caches)) as u64
}

/// What a ladder needs whatever its policy: at least one cache, every
/// capacity before scaling above 100, and the largest within `u64`.
pub open spec fn valid_ladder(max_cache_size: u64, num_caches: u64) -> bool {
    &&& 1 <= num_caches <= usize::MAX
    &&& 2 * (max_cache_size / num_caches) > 100
    &&& (num_caches + 1) * (max_cache_size / num_caches) <= u64::MAX
}

/// The configurations a simulator of policy `P` can be made with: a valid
/// ladder, a sampling rate of no more than one, each simulated capacity
/// accepted by the policy, and room above each for the size of one more
/// object.
pub open spec fn valid_config<P: EvictPolicy>(
    max_cache_size: u64,
    num_caches: u64,
    threshold: Option<u64>,
) -> bool {
    &&& valid_ladder(max_cache_size, num_caches)
    &&& threshold matches Some(t) ==> t <= MODULUS
    &&& forall|i: int|
        0 <= i < num_caches ==> {
            &&& P::accepts(#[trigger] simulated_capacity(max_cache_size, num_caches, i, threshold))
            &&& simulated_capacity(max_cache_size, num_caches, i, threshold) + u32::MAX
                <= u64::MAX
        }
}

/// What one access does to one cache: a hit is a lookup, a miss is followed
/// by an insertion.
pub open spec fn cache_step<P: EvictPolicy>(m: P::V, key: Key, size: u64) -> P::V {
    if P::model_holds(m, key) {
        P::model_get(m, key)
    } else {
        P::model_put(m, key, size)
    }
}

/// The number of hits of a cache after one access.
pub open spec fn hits_step<P: EvictPolicy>(m: P::V, hits: u64, key: Key) -> u64 {
    if P::model_holds(m, key) {
        (hits + 1) as u64
    } else {
        hits
    }
}

/// Whether an access to `key` is observed: always without a sampler.
pub open spec fn observes(sampler: Option<SamplerModel>, key: Key) -> bool {
    match sampler {
        Some(s) => key_sampled(key, s.threshold),
        None => true,
    }
}

/// The sampler, if any, after it was shown `key`.
pub open spec fn sampler_shown(sampler: Option<SamplerModel>, key: Key) -> Option<SamplerModel> {
    match sampler {
        Some(s) => Some(s.shown(key)),
        None => None,
    }
}

/// The simulator after every cache has seen the access.
pub open spec fn processed<P: EvictPolicy>(
    m: MiniSimModel<P::V>,
    access: AccessRecord,
) -> MiniSimModel<P::V> {
    MiniSimModel {
        max_cache_size: m.max_cache_size,
        caches: Seq::new(
            m.caches.len(),
            |i: int| cache_step::<P>(m.caches[i], access.key, normalized_size(access.size)),
        ),
        hits: Seq::new(m.hits.len(), |i: int| hits_step::<P>(m.caches[i], m.hits[i], access.key)),
        access_count: (m.access_count + 1) as u64,
        sampler: m.sampler,
    }
}

/// The simulator after one access of the trace: the sampler is shown the
/// key, and unless it passes the access over, every cache sees it.
pub open spec fn handled<P: EvictPolicy>(
    m: MiniSimModel<P::V>,
    access: AccessRecord,
) -> MiniSimModel<P::V> {
    let shown = MiniSimModel {
        max_cache_size: m.max_cache_size,
        caches: m.caches,
        hits: m.hits,
        access_count: m.access_count,
        sampler: sampler_shown(m.sampler, access.key),
    };
    if observes(m.sampler, access.key) {
        processed::<P>(shown, access)
    } else {
        shown
    }
}

/// The simulator after a trace.
pub open spec fn replayed<P: EvictPolicy>(
    m: MiniSimModel<P::V>,
    trace: Seq<AccessRecord>,
) -> MiniSimModel<P::V>
    decreases trace.len(),
{
    if trace.len() == 0 {
        m
    } else {
        handled::<P>(replayed::<P>(m, trace.drop_last()), trace.last())
    }
}

/// The simulator before any access.
pub open spec fn initial<P: EvictPolicy>(
    max_cache_size: u64,
    num_caches: u64,
    sampler: Option<SamplerModel>,
) -> MiniSimModel<P::V> {
    MiniSimModel {
        max_cache_size,
        caches: Seq::new(
            num_caches as nat,
            |i: int|
                P::model_new(
                    simulated_capacity(max_cache_size, num_caches, i, threshold_of(sampler)),
                ),
        ),
        hits: Seq::new(num_caches as nat, |i: int| 0u64),
        access_count: 0,
        sampler,
    }
}

/// The miss ratio one: the value reported where a ratio has no meaning, and
/// the ceiling of a corrected ratio.
pub open spec fn ratio_one() -> Ratio {
    Ratio { numerator: 1, numerator_factor: 1, denominator: 1, denominator_factor: 1 }
}

/// The share of the observed accesses that a cache with `hits` hits missed;
/// one if nothing was observed.
pub open spec fn raw_miss_ratio(hits: u64, access_count: u64) -> Ratio {
    if access_count == 0 {
        ratio_one()
    } else {
        Ratio {
            numerator: (access_count - hits) as u128,
            numerator_factor: 1,
            denominator: access_count as u128,
            denominator_factor: 1,
        }
    }
}

/// The raw miss ratio times `sampled` over the expected count, which is
/// itself a fraction: `misses * sampled * expected.1` over
/// `access_count * expected.0`, cut off at one; one if that has a zero
/// denominator.
pub open spec fn corrected_miss_ratio(
    hits: u64,
    access_count: u64,
    sampled: u64,
    expected: (u128, u64),
) -> Ratio {
    let above = (access_count - hits) * sampled * expected.1;
    let below = expected.0 * access_count;
    if below == 0 || above >= below {
        ratio_one()
    } else {
        Ratio {
            numerator: ((access_count - hits) * sampled) as u128,
            numerator_factor: expected.1,
            denominator: expected.0,
            denominator_factor: access_count,
        }
    }
}

/// Whether two fractions with positive denominators are the same number.
pub open spec fn same_ratio(a: Ratio, b: Ratio) -> bool {
    a.top() * b.bottom() == b.top() * a.bottom()
}

impl<M> MiniSimModel<M> {
    /// What holds of the counters of every simulator.
    pub open spec fn consistent(self) -> bool {
        &&& self.caches.len() == self.hits.len()
        &&& self.hits.len() <= u64::MAX
        &&& valid_ladder(self.max_cache_size, self.hits.len() as u64)
        &&& forall|i: int| 0 <= i < self.hits.len() ==> #[trigger] self.hits[i] <= self.access_count
        &&& self.sampler matches Some(s) ==> {
            &&& counts_consistent(s.threshold, s.sampled, s.total)
            &&& self.access_count <= s.sampled
        }
    }

    /// The miss ratio that the curve reports for cache `i`.
    pub open spec fn miss_ratio(self, i: int) -> Ratio {
        match self.sampler {
            Some(s) => corrected_miss_ratio(
                self.hits[i],
                self.access_count,
                s.sampled,
                expected_count(s.total, s.threshold),
            ),
            None => raw_miss_ratio(self.hits[i], self.access_count),
        }
    }

    /// Point `i` of the curve.
    pub open spec fn curve_point(self, i: int) -> CurvePoint {
        CurvePoint {
            capacity: reported_capacity(self.max_cache_size, self.hits.len() as u64, i),
            miss_ratio: self.miss_ratio(i),
        }
    }

    /// The curve: one point for each cache, in the order of the ladder.
    pub open spec fn curve(self) -> Seq<CurvePoint> {
        Seq::new(self.hits.len(), |i: int| self.curve_point(i))
    }
}

/// Two to the power of 64.
pub const WORD: u128 = 18_446_744_073_709_551_616;

/// `value * factor` in two parts: the product is `high * WORD + low`.
fn wide_product(value: u128, factor: u64) -> (parts: (u128, u64))
    ensures
        parts.0 * WORD + parts.1 == value * factor,
{
    let value_high: u128 = value / WORD;
    let value_low: u128 = value % WORD;
    assert(value_high * factor <= (WORD - 1) * (WORD - 1) && value_low * factor <= (WORD - 1) * (
    WORD - 1)) by (nonlinear_arith)
        requires
            0 <= value_high <= WORD - 1,
            0 <= value_low <= WORD - 1,
            0 <= factor <= WORD - 1,
    ;
    let upper: u128 = value_high * (factor as u128);
    let lower: u128 = value_low * (factor as u128);
    let carry: u128 = lower / WORD;
    let low: u128 = lower % WORD;
    assert(value * factor == (upper + carry) * WORD + low) by (nonlinear_arith)
        requires
            value == value_high * WORD + value_low,
            upper == value_high * factor,
            lower == value_low * factor,
            lower == carry * WORD + low,
    ;
    (upper + carry, low as u64)
}

/// Tells whether `a * b` is at least `c * d`.
pub fn product_at_least(a: u128, b: u64, c: u128, d: u64) -> (at_least: bool)
    ensures
        at_least == (a * b >= c * d),
{
    let left = wide_product(a, b);
    let right = wide_product(c, d);
    left.0 > right.0 || (left.0 == right.0 && left.1 >= right.1)
}

/// Computes [`raw_miss_ratio`].
pub fn raw_ratio(hits: u64, access_count: u64) -> (ratio: Ratio)
    requires
        hits <= access_count,
    ensures
        ratio == raw_miss_ratio(hits, access_count),
{
    if access_count == 0 {
        Ratio { numerator: 1, numerator_factor: 1, denominator: 1, denominator_factor: 1 }
    } else {
        Ratio {
            numerator: (access_count - hits) as u128,
            numerator_factor: 1,
            denominator: access_count as u128,
            denominator_factor: 1,
        }
    }
}

/// Computes [`corrected_miss_ratio`].
pub fn corrected_ratio(hits: u64, access_count: u64, sampled: u64, expected: (u128, u64)) -> (ratio:
    Ratio)
    requires
        hits <= access_count,
    ensures
        ratio == corrected_miss_ratio(hits, access_count, sampled, expected),
{
    let misses = access_count - hits;
    assert(0 <= misses * sampled <= u64::MAX * u64::MAX) by (nonlinear_arith)
        requires
            0 <= misses <= u64::MAX,
            0 <= sampled <= u64::MAX,
    ;
    let observed_misses: u128 = (misses as u128) * (sampled as u128);
    proof {
        let below = expected.0 * access_count;
        assert(below == 0 <==> (expected.0 == 0 || access_count == 0)) by (nonlinear_arith)
            requires
                below == expected.0 * access_count,
                0 <= expected.0,
                0 <= access_count,
        ;
        assert(misses * sampled * expected.1 == observed_misses * expected.1);
    }
    if expected.0 == 0 || access_count == 0 || product_at_least(
        observed_misses,
        expected.1,
        expected.0,
        access_count,
    ) {
        Ratio { numerator: 1, numerator_factor: 1, denominator: 1, denominator_factor: 1 }
    } else {
        Ratio {
            numerator: observed_misses,
            numerator_factor: expected.1,
            denominator: expected.0,
            denominator_factor: access_count,
        }
    }
}

/// `count` zeros.
fn zeros(count: usize) -> (v: Vec<u64>)
    ensures
        v@.len() == count,
        forall|i: int| 0 <= i < count ==> v@[i] == 0,
{
    let mut v: Vec<u64> = Vec::new();
    let mut i: usize = 0;
    while i < count
        invariant
            i <= count,
            v@.len() == i,
            forall|j: int| 0 <= j < i ==> v@[j] == 0,
        decreases count - i,
    {
        v.push(0);
        i += 1;
    }
    v
}

/// The rungs of the ladder grow with their index.
proof fn lemma_rung(i: int, j: int, step: int)
    by (nonlinear_arith)
    requires
        0 <= i <= j,
        0 <= step,
    ensures
        i * step <= j * step,
        i < j && step > 0 ==> i * step < j * step,
{
}

/// The caches of a ladder, smallest first.
fn get_caches<P: EvictPolicy, S: Shards>(
    max_cache_size: u64,
    num_caches: u64,
    shards: &Option<S>,
) -> (caches: Vec<P>)
    requires
        valid_config::<P>(max_cache_size, num_caches, threshold_of(sampler_model(*shards))),
    ensures
        caches@.len() == num_caches,
        forall|i: int|
            0 <= i < num_caches ==> {
                &&& (#[trigger] caches@[i]).wf()
                &&& caches@[i]@ == P::model_new(
                    simulated_capacity(
                        max_cache_size,
                        num_caches,
                        i,
                        threshold_of(sampler_model(*shards)),
                    ),
                )
                &&& P::model_capacity(caches@[i]@) == simulated_capacity(
                    max_cache_size,
                    num_caches,
                    i,
                    threshold_of(sampler_model(*shards)),
                )
                &&& P::model_used(caches@[i]@) == 0
                &&& P::model_exact(caches@[i]@)
            },
{
    let ghost threshold = threshold_of(sampler_model(*shards));
    let step = max_cache_size / num_caches;
    let mut caches: Vec<P> = Vec::new();
    assert(num_caches + 1 <= u64::MAX) by (nonlinear_arith)
        requires
            (num_caches + 1) * step <= u64::MAX,
            step > 50,
    ;
    let mut i: u64 = 1;
    while i <= num_caches
        invariant
            1 <= i <= num_caches + 1,
            num_caches + 1 <= u64::MAX,
            step == max_cache_size / num_caches,
            threshold == threshold_of(sampler_model(*shards)),
            valid_config::<P>(max_cache_size, num_caches, threshold),
            caches@.len() == i - 1,
            forall|j: int|
                0 <= j < i - 1 ==> {
                    &&& (#[trigger] caches@[j]).wf()
                    &&& caches@[j]@ == P::model_new(
                        simulated_capacity(max_cache_size, num_caches, j, threshold),
                    )
                    &&& P::model_capacity(caches@[j]@) == simulated_capacity(
                        max_cache_size,
                        num_caches,
                        j,
                        threshold,
                    )
                    &&& P::model_used(caches@[j]@) == 0
                    &&& P::model_exact(caches@[j]@)
                },
        decreases num_caches + 1 - i,
    {
        proof {
            lemma_rung(i + 1, num_caches + 1, step as int);
            lemma_rung(2, i + 1, step as int);
        }
        let mut cache_size = (i + 1) * step;
        assert(cache_size > 100);
        match shards {
            Some(s) => {
                cache_size = s.scale(cache_size);
            },
            None => {},
        }
        assert(cache_size == simulated_capacity(max_cache_size, num_caches, i - 1, threshold));
        let cache = P::new(cache_size);
        caches.push(cache);
        i += 1;
    }
    caches
}

/// Replays accesses against `n` caches of policy `P` at once and counts, for
/// each, the accesses it hit.
pub struct MiniSim<P: EvictPolicy, S: Shards> {
    max_cache_size: u64,
    caches: Vec<P>,
    hits: Vec<u64>,
    access_count: u64,
    shards: Option<S>,
}

impl<P: EvictPolicy, S: Shards> View for MiniSim<P, S> {
    type V = MiniSimModel<P::V>;

    closed spec fn view(&self) -> MiniSimModel<P::V> {
        MiniSimModel {
            max_cache_size: self.max_cache_size,
            caches: Seq::new(self.caches@.len(), |i: int| self.caches@[i]@),
            hits: self.hits@,
            access_count: self.access_count,
            sampler: sampler_model(self.shards),
        }
    }
}

impl<P: EvictPolicy, S: Shards> MiniSim<P, S> {
    /// What holds of cache `i`: it is sound, its total is the sum of what it
    /// holds, it has the capacity of its rung, and its total is no more than
    /// that capacity or the largest size of an object.
    closed spec fn cache_ok(&self, i: int) -> bool {
        let c = self.caches@[i];
        &&& c.wf()
        &&& P::model_exact(c@)
        &&& P::model_capacity(c@) == simulated_capacity(
            self.max_cache_size,
            self.caches@.len() as u64,
            i,
            threshold_of(sampler_model(self.shards)),
        )
        &&& P::model_used(c@) <= larger(P::model_capacity(c@), u32::MAX as u64)
    }

    /// The invariant: the counters are consistent, and every cache is sound
    /// and has the capacity of its rung.
    pub closed spec fn wf(&self) -> bool {
        &&& self@.consistent()
        &&& valid_config::<P>(
            self.max_cache_size,
            self.caches@.len() as u64,
            threshold_of(sampler_model(self.shards)),
        )
        &&& forall|i: int| 0 <= i < self.caches@.len() ==> #[trigger] self.cache_ok(i)
    }

    /// Every sound simulator has consistent counters, and caches that are
    /// sound, exact, and of the capacities of the ladder.
    pub proof fn lemma_wf_consistent(&self)
        requires
            self.wf(),
        ensures
            self@.consistent(),
            valid_config::<P>(
                self@.max_cache_size,
                self@.caches.len() as u64,
                threshold_of(self@.sampler),
            ),
            forall|i: int|
                0 <= i < self@.caches.len() ==> {
                    &&& P::model_wf(#[trigger] self@.caches[i])
                    &&& P::model_exact(self@.caches[i])
                    &&& P::model_capacity(self@.caches[i]) == simulated_capacity(
                        self@.max_cache_size,
                        self@.caches.len() as u64,
                        i,
                        threshold_of(self@.sampler),
                    )
                },
    {
        assert forall|i: int| 0 <= i < self@.caches.len() implies {
            &&& P::model_wf(#[trigger] self@.caches[i])
            &&& P::model_exact(self@.caches[i])
            &&& P::model_capacity(self@.caches[i]) == simulated_capacity(
                self@.max_cache_size,
                self@.caches.len() as u64,
                i,
                threshold_of(self@.sampler),
            )
        } by {
            assert(self.cache_ok(i));
            self.caches@[i].lemma_wf_model();
        }
    }

    /// Tells whether a simulator can be made with this configuration.
    pub fn config_ok(max_cache_size: u64, num_caches: u64, shards: &Option<S>) -> (ok: bool)
        ensures
            ok == valid_config::<P>(
                max_cache_size,
                num_caches,
                threshold_of(sampler_model(*shards)),
            ),
    {
        let ghost threshold = threshold_of(sampler_model(*shards));
        if num_caches == 0 || num_caches > usize::MAX as u64 {
            return false;
        }
        match shards {
            Some(s) => {
                if s.get_global_t() > MODULUS {
                    return false;
                }
            },
            None => {},
        }
        let step = max_cache_size / num_caches;
        if step <= 50 {
            return false;
        }
        let top = match num_caches.checked_add(1) {
            Some(rungs) => rungs.checked_mul(step),
            None => None,
        };
        if top.is_none() {
            assert((num_caches + 1) * step > u64::MAX) by (nonlinear_arith)
                requires
                    num_caches + 1 > u64::MAX || (num_caches + 1) * step > u64::MAX,
                    step > 50,
            ;
            return false;
        }
        let mut i: u64 = 0;
        while i < num_caches
            invariant
                i <= num_caches,
                step == max_cache_size / num_caches,
                valid_ladder(max_cache_size, num_caches),
                threshold == threshold_of(sampler_model(*shards)),
                forall|j: int|
                    0 <= j < i ==> {
                        &&& P::accepts(
                            #[trigger] simulated_capacity(max_cache_size, num_caches, j, threshold),
                        )
                        &&& simulated_capacity(max_cache_size, num_caches, j, threshold) + u32::MAX
                            <= u64::MAX
                    },
            decreases num_caches - i,
        {
            proof {
                lemma_rung(i + 2, num_caches + 1, step as int);
            }
            let nominal = (i + 2) * step;
            let capacity = match shards {
                Some(s) => s.scale(nominal),
                None => nominal,
            };
            assert(capacity == simulated_capacity(max_cache_size, num_caches, i as int, threshold));
            if !P::accepts_capacity(capacity) || capacity > u64::MAX - u32::MAX as u64 {
                return false;
            }
            i += 1;
        }
        true
    }

    /// A simulator with [`NUM_CACHE_SIZE`] caches.
    pub fn new(max_cache_size: u64, shards: Option<S>) -> (sim: Self)
        requires
            valid_config::<P>(max_cache_size, NUM_CACHE_SIZE, threshold_of(sampler_model(shards))),
            shards matches Some(s) ==> counts_consistent(s.threshold(), s.sampled(), s.total()),
        ensures
            sim.wf(),
            sim@ == initial::<P>(max_cache_size, NUM_CACHE_SIZE, sampler_model(shards)),
    {
        Self::with_num_caches(max_cache_size, NUM_CACHE_SIZE, shards)
    }

    /// A simulator with `num_caches` caches.
    pub fn with_num_caches(max_cache_size: u64, num_caches: u64, shards: Option<S>) -> (sim: Self)
        requires
            valid_config::<P>(max_cache_size, num_caches, threshold_of(sampler_model(shards))),
            shards matches Some(s) ==> counts_consistent(s.threshold(), s.sampled(), s.total()),
        ensures
            sim.wf(),
            sim@ == initial::<P>(max_cache_size, num_caches, sampler_model(shards)),
    {
        let caches: Vec<P> = get_caches(max_cache_size, num_caches, &shards);
        let sim = MiniSim {
            max_cache_size,
            caches,
            hits: zeros(num_caches as usize),
            access_count: 0,
            shards,
        };
        proof {
            let start = initial::<P>(max_cache_size, num_caches, sampler_model(shards));
            assert(sim@.caches =~= start.caches);
            assert(sim@.hits =~= start.hits);
            assert forall|i: int| 0 <= i < sim.caches@.len() implies #[trigger] sim.cache_ok(i) by {
                assert(sim.caches@[i].wf());
            }
        }
        sim
    }

    /// Shows the key to the sampler, if there is one, and tells whether the
    /// access is observed.
    fn verify_shards(&mut self, key: Key) -> (observed: bool)
        requires
            old(self).wf(),
            old(self)@.sampler matches Some(s) ==> s.total < u64::MAX,
        ensures
            final(self).wf(),
            observed == observes(old(self)@.sampler, key),
            final(self)@.sampler == sampler_shown(old(self)@.sampler, key),
            final(self)@.max_cache_size == old(self)@.max_cache_size,
            final(self)@.caches == old(self)@.caches,
            final(self)@.hits == old(self)@.hits,
            final(self)@.access_count == old(self)@.access_count,
            observed ==> (final(self)@.sampler matches Some(s) ==> final(self)@.access_count
                < s.sampled),
    {
        let observed = match &mut self.shards {
            Some(shards) => shards.sample(&key),
            None => true,
        };
        proof {
            assert forall|i: int| 0 <= i < self.caches@.len() implies #[trigger] self.cache_ok(
                i,
            ) by {
                assert(old(self).cache_ok(i));
            }
        }
        observed
    }

    /// Lets every cache see the access.
    fn process(&mut self, access: &AccessRecord)
        requires
            old(self).wf(),
            old(self)@.access_count < u64::MAX,
            old(self)@.sampler matches Some(s) ==> old(self)@.access_count < s.sampled,
        ensures
            final(self).wf(),
            final(self)@ == processed::<P>(old(self)@, *access),
    {
        self.access_count += 1;
        let n = self.caches.len();
        proof {
            assert forall|j: int| 0 <= j < n implies #[trigger] self.cache_ok(j) by {
                assert(old(self).cache_ok(j));
            }
        }
        let size = if access.size == 0 { 1 } else { access.size };
        let mut i: usize = 0;
        while i < n
            invariant
                i <= n,
                n == self.caches@.len(),
                n == old(self).caches@.len(),
                old(self).wf(),
                size == normalized_size(access.size),
                self.hits@.len() == old(self).hits@.len(),
                self.max_cache_size == old(self).max_cache_size,
                self.shards == old(self).shards,
                self.access_count == old(self).access_count + 1,
                forall|j: int| 0 <= j < n ==> #[trigger] self.cache_ok(j),
                forall|j: int| 0 <= j < n ==> #[trigger] self.hits@[j] <= self.access_count,
                forall|j: int|
                    0 <= j < i ==> (#[trigger] self.caches@[j])@ == cache_step::<P>(
                        old(self).caches@[j]@,
                        access.key,
                        size as u64,
                    ),
                forall|j: int|
                    0 <= j < i ==> #[trigger] self.hits@[j] == hits_step::<P>(
                        old(self).caches@[j]@,
                        old(self).hits@[j],
                        access.key,
                    ),
                forall|j: int| i <= j < n ==> (#[trigger] self.caches@[j]) == old(self).caches@[j],
                forall|j: int| i <= j < n ==> (#[trigger] self.hits@[j]) == old(self).hits@[j],
            decreases n - i,
        {
            let ghost before = *self;
            assert(self.cache_ok(i as int));
            assert(self.caches@[i as int] == old(self).caches@[i as int]);
            assert(old(self).hits@[i as int] <= old(self).access_count);
            if let Some(_) = self.caches[i].get(access.key) {
                let hit = self.hits[i];
                self.hits.set(i, hit + 1);
            } else {
                self.caches[i].put(access.key, size as u64);
            }
            proof {
                assert forall|j: int| 0 <= j < n implies #[trigger] self.cache_ok(j) by {
                    assert(before.cache_ok(j));
                    if j != i {
                        assert(self.caches@[j] == before.caches@[j]);
                    }
                }
            }
            i += 1;
        }
        proof {
            let after = processed::<P>(old(self)@, *access);
            assert(self@.caches =~= after.caches);
            assert(self@.hits =~= after.hits);
        }
    }

    /// Replays one access: the sampler, if there is one, is shown the key,
    /// and an access it passes over leaves the caches and the counts of hits
    /// and accesses as they are.
    pub fn handle(&mut self, access: &AccessRecord)
        requires
            old(self).wf(),
            old(self)@.access_count < u64::MAX,
            old(self)@.sampler matches Some(s) ==> s.total < u64::MAX,
        ensures
            final(self).wf(),
            final(self)@ == handled::<P>(old(self)@, *access),
    {
        if !self.verify_shards(access.key) {
            return ;
        }
        self.process(access);
    }

    /// The curve: for each cache, the capacity it is reported under and the
    /// share of the observed accesses that it missed, corrected for the
    /// sampling bias if a sampler is present.
    pub fn curve(&self) -> (points: Vec<CurvePoint>)
        requires
            self.wf(),
        ensures
            points@ == self@.curve(),
            forall|i: int|
                0 <= i < points@.len() ==> 0 < (#[trigger] points@[i]).miss_ratio.bottom()
                    && points@[i].miss_ratio.top() <= points@[i].miss_ratio.bottom(),
            forall|i: int, j: int|
                0 <= i < j < points@.len() ==> (#[trigger] points@[i]).capacity < (
                #[trigger] points@[j]).capacity,
    {
        let n = self.hits.len();
        let step = self.max_cache_size / (n as u64);
        let mut points: Vec<CurvePoint> = Vec::new();
        let mut i: usize = 0;
        while i < n
            invariant
                i <= n,
                n == self.hits@.len(),
                self.wf(),
                step == self.max_cache_size / (n as u64),
                points@.len() == i,
                forall|j: int| 0 <= j < i ==> points@[j] == self@.curve_point(j),
            decreases n - i,
        {
            proof {
                lemma_rung(i + 1, n + 1, step as int);
            }
            let cache_size = (i as u64 + 1) * step;
            let hit = self.hits[i];
            let ratio = match &self.shards {
                Some(shards) => corrected_ratio(
                    hit,
                    self.access_count,
                    shards.get_sampled_count(),
                    shards.get_expected_count(),
                ),
                None => raw_ratio(hit, self.access_count),
            };
            points.push(CurvePoint { capacity: cache_size, miss_ratio: ratio });
            i += 1;
        }
        proof {
            assert(points@ =~= self@.curve());
            assert forall|i: int| 0 <= i < points@.len() implies 0 < (
            #[trigger] points@[i]).miss_ratio.bottom() && points@[i].miss_ratio.top()
                <= points@[i].miss_ratio.bottom() by {
                law_ratio_is_a_share(self@, i);
            }
            assert forall|i: int, j: int| 0 <= i < j < points@.len() implies (
            #[trigger] points@[i]).capacity < (#[trigger] points@[j]).capacity by {
                law_reported_capacities(self@, self@, i, j);
            }
        }
        points
    }
}

/// A replay keeps the ladder: the number of caches and of counters,
/// `max_cache_size`, and the threshold of the sampler.
pub proof fn lemma_replay_keeps_ladder<P: EvictPolicy>(
    m: MiniSimModel<P::V>,
    trace: Seq<AccessRecord>,
)
    ensures
        replayed::<P>(m, trace).max_cache_size == m.max_cache_size,
        replayed::<P>(m, trace).caches.len() == m.caches.len(),
        replayed::<P>(m, trace).hits.len() == m.hits.len(),
        threshold_of(replayed::<P>(m, trace).sampler) == threshold_of(m.sampler),
    decreases trace.len(),
{
    if trace.len() > 0 {
        lemma_replay_keeps_ladder::<P>(m, trace.drop_last());
    }
}

/// A curve reports one for every cache as long as no access was observed.
pub proof fn law_no_access_reports_one<M>(m: MiniSimModel<M>, i: int)
    requires
        m.consistent(),
        0 <= i < m.hits.len(),
        m.access_count == 0,
    ensures
        m.miss_ratio(i) == ratio_one(),
{
    if let Some(s) = m.sampler {
        let expected = expected_count(s.total, s.threshold);
        assert(expected.0 * m.access_count == 0) by (nonlinear_arith)
            requires
                m.access_count == 0,
        ;
    }
}

/// Every reported miss ratio is a share: its denominator is positive and its
/// numerator no larger.
pub proof fn law_ratio_is_a_share<M>(m: MiniSimModel<M>, i: int)
    requires
        m.consistent(),
        0 <= i < m.hits.len(),
    ensures
        0 < m.miss_ratio(i).bottom(),
        m.miss_ratio(i).top() <= m.miss_ratio(i).bottom(),
{
    let hits = m.hits[i];
    assert(hits <= m.access_count);
    assert(ratio_one().top() == 1 && ratio_one().bottom() == 1);
    let raw = raw_miss_ratio(hits, m.access_count);
    if m.access_count > 0 {
        let misses = m.access_count - hits;
        assert(raw.numerator == misses && raw.numerator_factor == 1);
        assert(raw.denominator == m.access_count && raw.denominator_factor == 1);
        assert(raw.top() == misses && raw.bottom() == m.access_count);
    }
    if let Some(s) = m.sampler {
        let expected = expected_count(s.total, s.threshold);
        let misses = m.access_count - hits;
        assert(0 <= misses * s.sampled <= u64::MAX * u64::MAX) by (nonlinear_arith)
            requires
                0 <= misses <= u64::MAX,
                0 <= s.sampled <= u64::MAX,
        ;
        assert(0 <= s.threshold * s.total <= u64::MAX * u64::MAX) by (nonlinear_arith)
            requires
                0 <= s.threshold <= u64::MAX,
                0 <= s.total <= u64::MAX,
        ;
        let above = misses * s.sampled * expected.1;
        let below = expected.0 * m.access_count;
        assert(0 <= above && 0 <= below) by (nonlinear_arith)
            requires
                above == misses * s.sampled * expected.1,
                below == expected.0 * m.access_count,
                0 <= misses,
                0 <= s.sampled,
                0 <= expected.1,
                0 <= expected.0,
                0 <= m.access_count,
        ;
        if below != 0 && above < below {
            let r = m.miss_ratio(i);
            assert(r.top() == above);
            assert(r.bottom() == below);
        }
    }
}

/// The reported capacities grow strictly along the curve, and are the same
/// for any two simulators of one `max_cache_size` and one number of caches,
/// with a sampler or without: point `i` is reported under
/// `(i + 1) * (max_cache_size / n)`.
pub proof fn law_reported_capacities<M>(a: MiniSimModel<M>, b: MiniSimModel<M>, i: int, j: int)
    requires
        a.consistent(),
        a.max_cache_size == b.max_cache_size,
        a.hits.len() == b.hits.len(),
        0 <= i <= j < a.hits.len(),
    ensures
        i < j ==> a.curve_point(i).capacity < a.curve_point(j).capacity,
        a.curve_point(i).capacity == b.curve_point(i).capacity,
        a.curve_point(i).capacity == (i + 1) * (a.max_cache_size / (a.hits.len() as u64)),
{
    let n = a.hits.len() as u64;
    let step = (a.max_cache_size / n) as int;
    lemma_rung(i + 1, j + 1, step);
    lemma_rung(j + 1, n + 1, step);
}

/// The simulated capacities grow strictly along the ladder without a
/// sampler, and never shrink along it with one.
pub proof fn law_simulated_capacities(
    max_cache_size: u64,
    num_caches: u64,
    threshold: Option<u64>,
    i: int,
    j: int,
)
    requires
        valid_ladder(max_cache_size, num_caches),
        0 <= i < j < num_caches,
    ensures
        simulated_capacity(max_cache_size, num_caches, i, None) < simulated_capacity(
            max_cache_size,
            num_caches,
            j,
            None,
        ),
        simulated_capacity(max_cache_size, num_caches, i, threshold) <= simulated_capacity(
            max_cache_size,
            num_caches,
            j,
            threshold,
        ),
{
    let step = (max_cache_size / num_caches) as int;
    lemma_rung(i + 2, j + 2, step);
    lemma_rung(j + 2, num_caches + 1, step);
    if let Some(t) = threshold {
        let low = (i + 2) * step;
        let high = (j + 2) * step;
        assert((low * t) / 1000 <= (high * t) / 1000) by (nonlinear_arith)
            requires
                0 <= low <= high,
                0 <= t,
        ;
    }
}

/// With a sampler whose rate is one, the reported miss ratio is the raw miss
/// ratio.
pub proof fn law_full_rate_needs_no_correction<M>(m: MiniSimModel<M>, i: int)
    requires
        m.consistent(),
        0 <= i < m.hits.len(),
        m.sampler matches Some(s) && s.threshold == MODULUS,
    ensures
        same_ratio(m.miss_ratio(i), raw_miss_ratio(m.hits[i], m.access_count)),
{
    let s = m.sampler->0;
    let hits = m.hits[i];
    let expected = expected_count(s.total, s.threshold);
    let reported = m.miss_ratio(i);
    let raw = raw_miss_ratio(hits, m.access_count);
    assert(hits <= m.access_count);
    let misses = m.access_count - hits;
    let accesses = m.access_count as int;
    let sampled = s.sampled as int;
    assert(s.total == sampled);
    assert(0 <= 1000 * sampled <= u64::MAX * u64::MAX);
    assert(expected.0 == 1000 * sampled);
    assert(expected.1 == 1000);
    if m.access_count == 0 {
        assert(expected.0 * m.access_count == 0) by (nonlinear_arith)
            requires
                m.access_count == 0,
        ;
        assert(same_ratio(reported, raw));
    } else {
        assert(1 <= accesses <= sampled);
        let above = misses * sampled * 1000;
        let below = (1000 * sampled) * accesses;
        assert(0 <= misses * sampled <= u64::MAX * u64::MAX) by (nonlinear_arith)
            requires
                0 <= misses <= u64::MAX,
                0 <= sampled <= u64::MAX,
        ;
        assert(below > 0) by (nonlinear_arith)
            requires
                below == (1000 * sampled) * accesses,
                sampled >= 1,
                accesses >= 1,
        ;
        assert(above * accesses == misses * below) by (nonlinear_arith)
            requires
                above == misses * sampled * 1000,
                below == (1000 * sampled) * accesses,
        ;
        if above >= below {
            assert(misses >= accesses) by (nonlinear_arith)
                requires
                    misses * sampled * 1000 >= (1000 * sampled) * accesses,
                    sampled >= 1,
            ;
            assert(reported == ratio_one());
            assert(reported.top() == 1 && reported.bottom() == 1);
            assert(raw.top() == misses && raw.bottom() == accesses);
            assert(same_ratio(reported, raw));
        } else {
            assert(reported.top() == above);
            assert(reported.bottom() == below);
            assert(raw.top() == misses && raw.bottom() == accesses);
            assert(reported.top() * raw.bottom() == raw.top() * reported.bottom());
        }
    }
}

} // verus!
