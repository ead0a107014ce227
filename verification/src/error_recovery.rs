//! Resilience: circuit breakers per resource and the bookkeeping of
//! graceful degradation.

use vstd::prelude::*;
use std::collections::BTreeMap;

verus! {

broadcast use vstd::std_specs::btree::group_btree_axioms;

/// Failures after which a breaker made on demand opens.
pub const DEFAULT_FAILURE_THRESHOLD: u32 = 5;

/// Nanoseconds an open breaker made on demand waits before a trial.
pub const DEFAULT_BREAKER_TIMEOUT: u64 = 1_000_000_000;

/// State of a circuit breaker.
#[derive(Clone, Copy, PartialEq, Eq, Structural, Debug)]
pub enum CircuitState {
    /// Normal operation.
    Closed,
    /// Failing: requests are refused.
    Open,
    /// Trying again: requests are let through.
    HalfOpen,
}

/// A circuit breaker.
#[derive(Clone, Copy, PartialEq, Eq, Structural, Debug)]
pub struct CircuitBreaker {
    pub state: CircuitState,
    pub failure_count: u32,
    pub failure_threshold: u32,
    pub success_count: u32,
    pub success_threshold: u32,
    pub last_failure_time: u64,
    pub timeout: u64,
}

/// A closed breaker with no failures and one success needed to close.
pub open spec fn fresh_breaker(failure_threshold: u32, timeout: u64) -> CircuitBreaker {
    CircuitBreaker {
        state: CircuitState::Closed,
        failure_count: 0,
        failure_threshold,
        success_count: 0,
        success_threshold: 1,
        last_failure_time: 0,
        timeout,
    }
}

/// Whether the breaker lets a request through at `now`, and its state after
/// the check: an open breaker whose timeout has passed turns half-open.
pub open spec fn check(b: CircuitBreaker, now: u64) -> (bool, CircuitBreaker) {
    match b.state {
        CircuitState::Closed => (true, b),
        CircuitState::Open => if now - b.last_failure_time >= b.timeout {
            (true, CircuitBreaker { state: CircuitState::HalfOpen, success_count: 0, ..b })
        } else {
            (false, b)
        },
        CircuitState::HalfOpen => (true, b),
    }
}

/// The breaker after a success.
pub open spec fn after_success(b: CircuitBreaker) -> CircuitBreaker {
    match b.state {
        CircuitState::Closed => CircuitBreaker { failure_count: 0, ..b },
        CircuitState::HalfOpen => if b.success_count + 1 >= b.success_threshold {
            CircuitBreaker {
                state: CircuitState::Closed,
                failure_count: 0,
                success_count: (b.success_count + 1) as u32,
                ..b
            }
        } else {
            CircuitBreaker { success_count: (b.success_count + 1) as u32, ..b }
        },
        CircuitState::Open => b,
    }
}

/// The breaker after a failure at `now`.
pub open spec fn after_failure(b: CircuitBreaker, now: u64) -> CircuitBreaker {
    let count = (b.failure_count + 1) as u32;
    CircuitBreaker {
        failure_count: count,
        last_failure_time: now,
        state: if b.state != CircuitState::Open && count >= b.failure_threshold {
            CircuitState::Open
        } else {
            b.state
        },
        ..b
    }
}

impl CircuitBreaker {
    pub fn new(failure_threshold: u32, timeout: u64) -> (b: Self)
        ensures
            b == fresh_breaker(failure_threshold, timeout),
    {
        CircuitBreaker {
            state: CircuitState::Closed,
            failure_count: 0,
            failure_threshold,
            success_count: 0,
            success_threshold: 1,
            last_failure_time: 0,
            timeout,
        }
    }

    /// Whether an operation may go ahead at `now`.
    pub fn is_allowed(&mut self, now: u64) -> (r: bool)
        requires
            old(self).state == CircuitState::Open ==> now >= old(self).last_failure_time,
        ensures
            (r, *final(self)) == check(*old(self), now),
    {
        match self.state {
            CircuitState::Closed => true,
            CircuitState::Open => {
                if now - self.last_failure_time >= self.timeout {
                    self.state = CircuitState::HalfOpen;
                    self.success_count = 0;
                    true
                } else {
                    false
                }
            },
            CircuitState::HalfOpen => true,
        }
    }

    /// Records a success: a closed breaker forgets its failures, a
    /// half-open one closes after enough successes.
    pub fn record_success(&mut self)
        requires
            old(self).success_count < u32::MAX,
        ensures
            *final(self) == after_success(*old(self)),
    {
        match self.state {
            CircuitState::Closed => {
                self.failure_count = 0;
            },
            CircuitState::HalfOpen => {
                self.success_count = self.success_count + 1;
                if self.success_count >= self.success_threshold {
                    self.state = CircuitState::Closed;
                    self.failure_count = 0;
                }
            },
            CircuitState::Open => {},
        }
    }

    /// Records a failure at `now`; reaching the threshold opens the breaker.
    pub fn record_failure(&mut self, now: u64)
        requires
            old(self).failure_count < u32::MAX,
        ensures
            *final(self) == after_failure(*old(self), now),
    {
        self.failure_count = self.failure_count + 1;
        self.last_failure_time = now;
        match self.state {
            CircuitState::Closed | CircuitState::HalfOpen => {
                if self.failure_count >= self.failure_threshold {
                    self.state = CircuitState::Open;
                }
            },
            CircuitState::Open => {},
        }
    }
}

/// The breaker of `resource` in `m`, or a fresh default one.
pub open spec fn breaker_or_default(m: Map<u64, CircuitBreaker>, resource: u64) -> CircuitBreaker {
    if m.contains_key(resource) {
        m[resource]
    } else {
        fresh_breaker(DEFAULT_FAILURE_THRESHOLD, DEFAULT_BREAKER_TIMEOUT)
    }
}

/// Circuit breakers by resource.
pub struct ErrorRecoveryManager {
    circuit_breakers: BTreeMap<u64, CircuitBreaker>,
}

impl ErrorRecoveryManager {
    /// The breaker of each resource that has one.
    pub closed spec fn breakers(&self) -> Map<u64, CircuitBreaker> {
        self.circuit_breakers@
    }

    pub fn new() -> (m: Self)
        ensures
            m.breakers() == Map::<u64, CircuitBreaker>::empty(),
    {
        ErrorRecoveryManager { circuit_breakers: BTreeMap::new() }
    }

    /// Whether the breaker of `resource_id` lets an operation through at
    /// `now`; a resource without one gets a default breaker first.
    pub fn check_circuit_breaker(&mut self, resource_id: u64, now: u64) -> (r: bool)
        requires
            breaker_or_default(old(self).breakers(), resource_id).state == CircuitState::Open
                ==> now >= breaker_or_default(old(self).breakers(), resource_id).last_failure_time,
        ensures
            r == check(breaker_or_default(old(self).breakers(), resource_id), now).0,
            final(self).breakers() == old(self).breakers().insert(
                resource_id,
                check(breaker_or_default(old(self).breakers(), resource_id), now).1,
            ),
    {
        let mut b = match self.circuit_breakers.get(&resource_id) {
            Some(b) => *b,
            None => CircuitBreaker::new(DEFAULT_FAILURE_THRESHOLD, DEFAULT_BREAKER_TIMEOUT),
        };
        let r = b.is_allowed(now);
        self.circuit_breakers.insert(resource_id, b);
        r
    }

    /// Records a success on the breaker of `resource_id`, if it has one.
    pub fn record_circuit_breaker_success(&mut self, resource_id: u64)
        requires
            old(self).breakers().contains_key(resource_id) ==> old(self).breakers()[resource_id].success_count
                < u32::MAX,
        ensures
            final(self).breakers() == if old(self).breakers().contains_key(resource_id) {
                old(self).breakers().insert(
                    resource_id,
                    after_success(old(self).breakers()[resource_id]),
                )
            } else {
                old(self).breakers()
            },
    {
        match self.circuit_breakers.get(&resource_id) {
            Some(b) => {
                let mut b = *b;
                b.record_success();
                self.circuit_breakers.insert(resource_id, b);
            },
            None => {},
        }
    }

    /// Records a failure at `now` on the breaker of `resource_id`, making a
    /// default breaker first when there is none.
    pub fn record_circuit_breaker_failure(&mut self, resource_id: u64, now: u64)
        requires
            breaker_or_default(old(self).breakers(), resource_id).failure_count < u32::MAX,
        ensures
            final(self).breakers() == old(self).breakers().insert(
                resource_id,
                after_failure(breaker_or_default(old(self).breakers(), resource_id), now),
            ),
    {
        let mut b = match self.circuit_breakers.get(&resource_id) {
            Some(b) => *b,
            None => CircuitBreaker::new(DEFAULT_FAILURE_THRESHOLD, DEFAULT_BREAKER_TIMEOUT),
        };
        b.record_failure(now);
        self.circuit_breakers.insert(resource_id, b);
    }

    /// Runs `operation` until it succeeds or the attempts of the retry
    /// policy are used up, and returns its last result with the number of
    /// attempts made. No policy can be registered, so every error code gets
    /// the default policy's attempts. Between two attempts `wait` is given
    /// the number of the attempt that failed, and waits out the back-off
    /// delay. Whether to try again is [`retry_after`]'s decision.
    pub fn execute_with_retry<T, E, F: Fn() -> Result<T, E>, W: Fn(u32)>(
        &self,
        operation: &F,
        error_code: u32,
        wait: &W,
    ) -> (out: (Result<T, E>, u32))
        requires
            call_requires(*operation, ()),
            forall|attempt: u32| call_requires(*wait, (attempt,)),
        ensures
            1 <= out.1 <= DEFAULT_RETRY_ATTEMPTS,
            out.0 is Err ==> out.1 == DEFAULT_RETRY_ATTEMPTS,
            exists|results: Seq<Result<T, E>>|
                #![trigger results.len()]
                {
                    &&& results.len() == out.1
                    &&& forall|i: int| 0 <= i < results.len() ==> call_ensures(*operation, (), #[trigger] results[i])
                    &&& forall|i: int| 0 <= i < results.len() - 1 ==> (#[trigger] results[i]) is Err
                    &&& results.last() == out.0
                },
    {
        let mut attempt: u32 = 0;
        let ghost mut results: Seq<Result<T, E>> = Seq::empty();
        loop
            invariant
                attempt < DEFAULT_RETRY_ATTEMPTS,
                call_requires(*operation, ()),
                forall|a: u32| call_requires(*wait, (a,)),
                results.len() == attempt,
                forall|i: int| 0 <= i < results.len() ==> call_ensures(*operation, (), #[trigger] results[i]),
                forall|i: int| 0 <= i < results.len() ==> (#[trigger] results[i]) is Err,
            decreases DEFAULT_RETRY_ATTEMPTS - attempt,
        {
            let result = operation();
            proof {
                results = results.push(result);
            }
            if !retry_after(attempt, result.is_ok()) {
                proof {
                    assert(results.len() == attempt + 1);
                    assert(results.last() == result);
                }
                return (result, attempt + 1);
            }
            wait(attempt);
            attempt = attempt + 1;
        }
    }
}

/// Whether an operation is tried again after attempt `attempt` (counted
/// from 0): when that attempt failed and the default policy's attempts are
/// not used up.
pub fn retry_after(attempt: u32, succeeded: bool) -> (again: bool)
    ensures
        again == (!succeeded && attempt + 1 < DEFAULT_RETRY_ATTEMPTS),
{
    !succeeded && attempt < DEFAULT_RETRY_ATTEMPTS - 1
}

/// The number of attempts of the default retry policy.
pub const DEFAULT_RETRY_ATTEMPTS: u32 = 3;

/// Graceful degradation level.
#[derive(Clone, Copy, PartialEq, Eq, Structural, Debug)]
pub enum DegradationLevel {
    Normal,
    Reduced,
    Minimal,
    Emergency,
}

/// The number of resources marked available in `m`.
pub open spec fn available_in(m: Map<u64, bool>) -> nat {
    m.dom().filter(|k: u64| m[k]).len()
}

/// The level for `available` of `total` resources: none known, or at
/// least nine tenths available, is normal; at least seven tenths is
/// reduced; at least half is minimal; less is an emergency.
pub open spec fn level_for(available: int, total: int) -> DegradationLevel {
    if total == 0 || 10 * available >= 9 * total {
        DegradationLevel::Normal
    } else if 10 * available >= 7 * total {
        DegradationLevel::Reduced
    } else if 2 * available >= total {
        DegradationLevel::Minimal
    } else {
        DegradationLevel::Emergency
    }
}

/// The level for `available` of `total` resources; see [`level_for`]. The
/// shares are compared exactly, in integers.
pub fn degradation_level(available: u64, total: u64) -> (l: DegradationLevel)
    ensures
        l == level_for(available as int, total as int),
{
    let a = available as u128;
    let t = total as u128;
    if total == 0 || 10 * a >= 9 * t {
        DegradationLevel::Normal
    } else if 10 * a >= 7 * t {
        DegradationLevel::Reduced
    } else if 2 * a >= t {
        DegradationLevel::Minimal
    } else {
        DegradationLevel::Emergency
    }
}

/// Which resources are available, and the degradation level decided from
/// them.
pub struct DegradationManager {
    current_level: DegradationLevel,
    resource_states: BTreeMap<u64, bool>,
    available_count: u64,
}

impl DegradationManager {
    /// Availability of each known resource.
    pub closed spec fn states(&self) -> Map<u64, bool> {
        self.resource_states@
    }

    /// The current level.
    pub closed spec fn level(&self) -> DegradationLevel {
        self.current_level
    }

    /// The number of available resources is kept alongside the states.
    pub closed spec fn wf(&self) -> bool {
        &&& self.resource_states@.dom().finite()
        &&& self.available_count == available_in(self.resource_states@)
        &&& self.resource_states@.dom().len() < u64::MAX
    }

    pub fn new() -> (m: Self)
        ensures
            m.wf(),
            m.states() == Map::<u64, bool>::empty(),
            m.level() == DegradationLevel::Normal,
    {
        let m = DegradationManager {
            current_level: DegradationLevel::Normal,
            resource_states: BTreeMap::new(),
            available_count: 0,
        };
        proof {
            assert(m.resource_states@.dom().filter(|k: u64| m.resource_states@[k]) =~= Set::<
                u64,
            >::empty());
        }
        m
    }

    /// The current degradation level.
    pub fn get_level(&self) -> (l: DegradationLevel)
        ensures
            l == self.level(),
    {
        self.current_level
    }

    /// Records whether `resource_id` is available and recalculates the
    /// level from the share of known resources that are available.
    pub fn set_resource_available(&mut self, resource_id: u64, available: bool)
        requires
            old(self).wf(),
            old(self).states().dom().len() + 1 < u64::MAX,
        ensures
            final(self).wf(),
            final(self).states() == old(self).states().insert(resource_id, available),
            final(self).level() == level_for(
                available_in(final(self).states()) as int,
                final(self).states().dom().len() as int,
            ),
    {
        let previous = self.resource_states.insert(resource_id, available);
        let ghost before = old(self).resource_states@;
        let ghost after = self.resource_states@;
        proof {
            let fb = before.dom().filter(|k: u64| before[k]);
            let fa = after.dom().filter(|k: u64| after[k]);
            if available {
                assert(fa =~= fb.insert(resource_id));
            } else {
                assert(fa =~= fb.remove(resource_id));
            }
            before.dom().lemma_len_filter(|k: u64| before[k]);
            after.dom().lemma_len_filter(|k: u64| after[k]);
            assert(fb.len() == available_in(before));
        }
        match previous {
            Some(was) => {
                if was && !available {
                    self.available_count = self.available_count - 1;
                } else if !was && available {
                    self.available_count = self.available_count + 1;
                }
            },
            None => {
                if available {
                    self.available_count = self.available_count + 1;
                }
            },
        }
        let total = self.resource_states.len() as u64;
        self.current_level = degradation_level(self.available_count, total);
    }
}

/// A half-open breaker that records enough successes closes again, and a
/// closed breaker opens once its failures reach the threshold.
pub proof fn law_breaker_cycle(b: CircuitBreaker, now: u64)
    ensures
        b.state == CircuitState::HalfOpen && b.success_count + 1 >= b.success_threshold
            ==> after_success(b).state == CircuitState::Closed && after_success(b).failure_count
            == 0,
        b.state == CircuitState::Closed && b.failure_count + 1 >= b.failure_threshold
            && b.failure_count < u32::MAX ==> after_failure(b, now).state == CircuitState::Open,
        b.state == CircuitState::Open && now - b.last_failure_time < b.timeout ==> !check(b, now).0,
{
}

/// How degraded a level is: normal is 0, emergency 3.
pub open spec fn severity(l: DegradationLevel) -> int {
    match l {
        DegradationLevel::Normal => 0,
        DegradationLevel::Reduced => 1,
        DegradationLevel::Minimal => 2,
        DegradationLevel::Emergency => 3,
    }
}

/// With the same resources known, more of them available never makes the
/// level worse, and all of them available is normal.
pub proof fn law_more_available_is_no_worse(a1: int, a2: int, total: int)
    requires
        0 <= a1 <= a2 <= total,
    ensures
        severity(level_for(a2, total)) <= severity(level_for(a1, total)),
        level_for(total, total) == DegradationLevel::Normal,
{
}

} // verus!
