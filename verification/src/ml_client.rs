//! The kernel's side of the machine-learning bridge: the behaviour
//! figures it sends, and when a cached prediction is still fresh. Requests
//! and replies carry fractions and are handled by the embedding code.

use vstd::prelude::*;

verus! {

/// The agent identifier of the machine-learning bridge service.
pub const ML_BRIDGE_AGENT_ID: u64 = 1000;

/// How long a cached prediction stays fresh, in nanoseconds.
pub const CACHE_TTL_NS: u64 = 100_000_000;

/// What an agent did, for threat detection.
#[derive(Clone, Copy, PartialEq, Eq, Structural, Debug)]
pub struct BehaviorMetrics {
    pub operation_count: u64,
    pub syscall_count: u64,
    pub memory_usage: u64,
    pub network_activity: u64,
}

/// Whether a prediction cached at `cached_at` is still fresh at `now`:
/// less than `ttl` has passed, a clock that went back counting as none.
pub fn cache_fresh(now: u64, cached_at: u64, ttl: u64) -> (fresh: bool)
    ensures
        fresh == (if now >= cached_at {
            now - cached_at
        } else {
            0
        } < ttl),
{
    now.saturating_sub(cached_at) < ttl
}

} // verus!
