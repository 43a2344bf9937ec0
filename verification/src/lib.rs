//! Miss-ratio curves for byte-bounded caches.
//!
//! A trace of accesses is replayed against a ladder of caches of growing
//! capacity, all running one eviction policy. The share of accesses each cache
//! misses, plotted over its capacity, is the curve. A sampler may thin the
//! trace by a stable hash of the key; the simulated capacities shrink by the
//! same rate and the reported ratios are corrected for the sampling bias.
use vstd::prelude::*;

pub mod config;
pub mod evict_policy;
pub mod minisim;
pub mod shards;
pub mod simulation;

verus! {

/// Identifies a cached object.
pub type Key = u64;

/// Number of capacities a simulator built by `MiniSim::new` replays against.
pub const NUM_CACHE_SIZE: u64 = 100;

/// One access of a trace. `command` and `ttl` are carried along and not
/// interpreted.
#[derive(Clone, Copy, Debug)]
pub struct AccessRecord {
    pub timestamp: u64,
    pub command: u8,
    pub key: Key,
    pub size: u32,
    pub ttl: u32,
}

} // verus!
