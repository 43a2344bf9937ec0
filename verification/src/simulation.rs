//! Runs of a whole trace, one for each requested policy.
use std::sync::Arc;
use vstd::prelude::*;
use crate::AccessRecord;
use crate::NUM_CACHE_SIZE;
use crate::config::EvictionPolicy;
use crate::evict_policy::EvictPolicy;
use crate::evict_policy::FifoPolicy;
use crate::evict_policy::LruPolicy;
use crate::minisim::CurvePoint;
use crate::minisim::MiniSim;
use crate::minisim::MiniSimModel;
use crate::minisim::handled;
use crate::minisim::initial;
use crate::minisim::lemma_replay_keeps_ladder;
use crate::minisim::replayed;
use crate::minisim::valid_config;
use crate::shards::SamplerModel;
use crate::shards::Shards;
use crate::shards::ShardsFixedRate;

verus! {

/// The curve of one policy.
pub struct SimulationResult {
    pub points: Vec<CurvePoint>,
    pub label: String,
}

/// A sampler that has been shown nothing, if there is a threshold.
pub open spec fn fresh_sampler(threshold: Option<u64>) -> Option<SamplerModel> {
    match threshold {
        Some(t) => Some(SamplerModel { threshold: t, sampled: 0, total: 0 }),
        None => None,
    }
}

/// The curve that `policy` yields on `trace`, from a fresh simulator with
/// [`NUM_CACHE_SIZE`] caches and a fresh sampler.
pub open spec fn policy_curve(
    policy: EvictionPolicy,
    max_cache_size: u64,
    threshold: Option<u64>,
    trace: Seq<AccessRecord>,
) -> Seq<CurvePoint> {
    match policy {
        EvictionPolicy::LRU => replayed::<LruPolicy>(
            initial::<LruPolicy>(max_cache_size, NUM_CACHE_SIZE, fresh_sampler(threshold)),
            trace,
        ).curve(),
        EvictionPolicy::FIFO => replayed::<FifoPolicy>(
            initial::<FifoPolicy>(max_cache_size, NUM_CACHE_SIZE, fresh_sampler(threshold)),
            trace,
        ).curve(),
    }
}

/// Whether a run of `policy` can be made with this configuration.
pub open spec fn policy_accepts(
    policy: EvictionPolicy,
    max_cache_size: u64,
    threshold: Option<u64>,
) -> bool {
    match policy {
        EvictionPolicy::LRU => valid_config::<LruPolicy>(max_cache_size, NUM_CACHE_SIZE, threshold),
        EvictionPolicy::FIFO => valid_config::<FifoPolicy>(
            max_cache_size,
            NUM_CACHE_SIZE,
            threshold,
        ),
    }
}

/// A replay counts no more accesses than the trace has, and shows the
/// sampler, if there is one, each of them.
proof fn lemma_replay_counts<P: EvictPolicy>(m: MiniSimModel<P::V>, trace: Seq<AccessRecord>)
    ensures
        replayed::<P>(m, trace).access_count <= m.access_count + trace.len() || m.access_count
            + trace.len() > u64::MAX,
        m.sampler is Some == replayed::<P>(m, trace).sampler is Some,
        m.sampler matches Some(s) ==> replayed::<P>(m, trace).sampler->0.total == s.total
            + trace.len() || s.total + trace.len() > u64::MAX,
    decreases trace.len(),
{
    if trace.len() > 0 {
        lemma_replay_counts::<P>(m, trace.drop_last());
    }
}

/// Replays the trace, in its order, and reads the curve off.
pub fn simulation<P: EvictPolicy, S: Shards>(
    access_records: Arc<Vec<AccessRecord>>,
    sim: MiniSim<P, S>,
    label: String,
) -> (result: SimulationResult)
    requires
        sim.wf(),
        sim@.access_count + access_records@.len() <= u64::MAX,
        sim@.sampler matches Some(s) ==> s.total + access_records@.len() <= u64::MAX,
    ensures
        result.label == label,
        result.points@ == replayed::<P>(sim@, access_records@).curve(),
{
    let mut sim = sim;
    let ghost start = sim@;
    let n = access_records.len();
    let mut i: usize = 0;
    while i < n
        invariant
            i <= n,
            n == access_records@.len(),
            sim.wf(),
            start.access_count + n <= u64::MAX,
            start.sampler matches Some(s) ==> s.total + n <= u64::MAX,
            sim@ == replayed::<P>(start, access_records@.subrange(0, i as int)),
        decreases n - i,
    {
        proof {
            lemma_replay_counts::<P>(start, access_records@.subrange(0, i as int));
            assert(access_records@.subrange(0, i + 1).drop_last() =~= access_records@.subrange(
                0,
                i as int,
            ));
        }
        sim.handle(&access_records[i]);
        i += 1;
    }
    assert(access_records@.subrange(0, n as int) =~= access_records@);
    let points = sim.curve();
    SimulationResult { points, label }
}

/// Tells whether [`run_policy`] can be called with this configuration.
pub fn policy_config_ok(policy: &EvictionPolicy, max_cache_size: u64, threshold: Option<u64>) -> (ok:
    bool)
    ensures
        ok == policy_accepts(*policy, max_cache_size, threshold),
{
    let shards = ShardsFixedRate::create_shards(threshold);
    match policy {
        EvictionPolicy::LRU => MiniSim::<LruPolicy, ShardsFixedRate>::config_ok(
            max_cache_size,
            NUM_CACHE_SIZE,
            &shards,
        ),
        EvictionPolicy::FIFO => MiniSim::<FifoPolicy, ShardsFixedRate>::config_ok(
            max_cache_size,
            NUM_CACHE_SIZE,
            &shards,
        ),
    }
}

/// The run of one policy: a fresh sampler, if a threshold is given, a fresh
/// simulator, and the whole trace.
pub fn run_policy(
    policy: &EvictionPolicy,
    access_records: Arc<Vec<AccessRecord>>,
    max_cache_size: u64,
    threshold: Option<u64>,
) -> (result: SimulationResult)
    requires
        policy_accepts(*policy, max_cache_size, threshold),
    ensures
        result.label@ == policy.label(),
        result.points@ == policy_curve(*policy, max_cache_size, threshold, access_records@),
        result.points@.len() == NUM_CACHE_SIZE,
{
    proof {
        let sampler = fresh_sampler(threshold);
        lemma_replay_keeps_ladder::<LruPolicy>(
            initial::<LruPolicy>(max_cache_size, NUM_CACHE_SIZE, sampler),
            access_records@,
        );
        lemma_replay_keeps_ladder::<FifoPolicy>(
            initial::<FifoPolicy>(max_cache_size, NUM_CACHE_SIZE, sampler),
            access_records@,
        );
    }
    let label = policy.to_string();
    let shards = ShardsFixedRate::create_shards(threshold);
    assert(access_records@.len() == access_records.len() <= usize::MAX);
    match policy {
        EvictionPolicy::LRU => {
            let sim = MiniSim::<LruPolicy, ShardsFixedRate>::new(max_cache_size, shards);
            simulation(access_records, sim, label)
        },
        EvictionPolicy::FIFO => {
            let sim = MiniSim::<FifoPolicy, ShardsFixedRate>::new(max_cache_size, shards);
            simulation(access_records, sim, label)
        },
    }
}

/// The runs of all the policies, in the order in which they are named. Each
/// run has a sampler and a simulator of its own.
pub fn simulate_all(
    access_records: Arc<Vec<AccessRecord>>,
    policies: &Vec<EvictionPolicy>,
    max_cache_size: u64,
    threshold: Option<u64>,
) -> (results: Vec<SimulationResult>)
    requires
        forall|i: int|
            0 <= i < policies@.len() ==> policy_accepts(
                #[trigger] policies@[i],
                max_cache_size,
                threshold,
            ),
    ensures
        results@.len() == policies@.len(),
        forall|i: int|
            0 <= i < policies@.len() ==> {
                &&& (#[trigger] results@[i]).label@ == policies@[i].label()
                &&& results@[i].points@ == policy_curve(
                    policies@[i],
                    max_cache_size,
                    threshold,
                    access_records@,
                )
            },
{
    let mut results: Vec<SimulationResult> = Vec::new();
    let n = policies.len();
    let mut i: usize = 0;
    while i < n
        invariant
            i <= n,
            n == policies@.len(),
            results@.len() == i,
            forall|j: int|
                0 <= j < policies@.len() ==> policy_accepts(
                    #[trigger] policies@[j],
                    max_cache_size,
                    threshold,
                ),
            forall|j: int|
                0 <= j < i ==> {
                    &&& (#[trigger] results@[j]).label@ == policies@[j].label()
                    &&& results@[j].points@ == policy_curve(
                        policies@[j],
                        max_cache_size,
                        threshold,
                        access_records@,
                    )
                },
        decreases n - i,
    {
        let shared = Arc::clone(&access_records);
        let result = run_policy(&policies[i], shared, max_cache_size, threshold);
        results.push(result);
        i += 1;
    }
    results
}

} // verus!
