//! Per-agent quotas on memory, CPU, network, I/O and file-system use.

use vstd::prelude::*;
use std::collections::BTreeMap;
use crate::text::str_equals;
use crate::events::{
    lemma_published_nothing, publish_event, published, EventType, KernelEvent, KernelEventSystem,
};

verus! {

/// The events a quota check of `agent_id` publishes: a security event for
/// the agent, at time 0, when the request is refused; none otherwise.
pub open spec fn quota_alert(agent_id: u64, granted: bool) -> Seq<(EventType, u64, Option<u64>, Seq<u8>)> {
    if granted {
        Seq::empty()
    } else {
        seq![(EventType::Security, 0u64, Some(agent_id), Seq::<u8>::empty())]
    }
}


broadcast use vstd::std_specs::btree::group_btree_axioms;

/// The resources a quota can be set on.
#[derive(PartialEq, Eq, Structural, Clone, Copy, Debug)]
pub enum ResourceKind {
    Memory,
    Cpu,
    Network,
    Io,
    Fs,
}

/// The resource a name stands for: "memory", "cpu", "network", "io" or "fs".
pub open spec fn resource_of(name: Seq<char>) -> Option<ResourceKind> {
    if name == seq!['m', 'e', 'm', 'o', 'r', 'y'] {
        Some(ResourceKind::Memory)
    } else if name == seq!['c', 'p', 'u'] {
        Some(ResourceKind::Cpu)
    } else if name == seq!['n', 'e', 't', 'w', 'o', 'r', 'k'] {
        Some(ResourceKind::Network)
    } else if name == seq!['i', 'o'] {
        Some(ResourceKind::Io)
    } else if name == seq!['f', 's'] {
        Some(ResourceKind::Fs)
    } else {
        None
    }
}

/// Parses a resource name; see [`resource_of`].
pub fn resource_kind(name: &str) -> (r: Option<ResourceKind>)
    ensures
        r == resource_of(name@),
{
    let memory = ['m', 'e', 'm', 'o', 'r', 'y'];
    let cpu = ['c', 'p', 'u'];
    let network = ['n', 'e', 't', 'w', 'o', 'r', 'k'];
    let io = ['i', 'o'];
    let fs = ['f', 's'];
    assert(memory@ =~= seq!['m', 'e', 'm', 'o', 'r', 'y']);
    assert(cpu@ =~= seq!['c', 'p', 'u']);
    assert(network@ =~= seq!['n', 'e', 't', 'w', 'o', 'r', 'k']);
    assert(io@ =~= seq!['i', 'o']);
    assert(fs@ =~= seq!['f', 's']);
    if str_equals(name, &memory) {
        Some(ResourceKind::Memory)
    } else if str_equals(name, &cpu) {
        Some(ResourceKind::Cpu)
    } else if str_equals(name, &network) {
        Some(ResourceKind::Network)
    } else if str_equals(name, &io) {
        Some(ResourceKind::Io)
    } else if str_equals(name, &fs) {
        Some(ResourceKind::Fs)
    } else {
        None
    }
}


/// Limit and current use of one resource.
#[derive(Clone, Copy, Debug)]
pub struct Quota {
    pub limit: u64,
    pub used: u64,
}

/// The quotas of one agent, one per resource.
#[derive(Clone, Copy, Debug)]
pub struct AgentQuotas {
    pub memory: Quota,
    pub cpu: Quota,
    pub network: Quota,
    pub io: Quota,
    pub fs: Quota,
}

/// Counters kept per agent.
#[derive(Clone, Copy, Debug)]
pub struct QuotaStatistics {
    pub total_checks: u64,
    pub total_allocations: u64,
    pub total_releases: u64,
    pub quota_exceeded_count: u64,
    pub last_exceeded: u64,
}

/// The quotas an agent starts with: 1 GiB of memory, 100% CPU, 100 MiB/s of
/// network, 1000 IOPS and 10 GiB of file system, none of it used.
pub open spec fn default_quotas() -> AgentQuotas {
    AgentQuotas {
        memory: Quota { limit: 1073741824u64, used: 0 },
        cpu: Quota { limit: 100, used: 0 },
        network: Quota { limit: 104857600u64, used: 0 },
        io: Quota { limit: 1000, used: 0 },
        fs: Quota { limit: 10737418240u64, used: 0 },
    }
}

/// Counters of an agent not seen before.
pub open spec fn zero_statistics() -> QuotaStatistics {
    QuotaStatistics {
        total_checks: 0,
        total_allocations: 0,
        total_releases: 0,
        quota_exceeded_count: 0,
        last_exceeded: 0,
    }
}

/// The quota of resource `k`.
pub open spec fn quota_of(q: AgentQuotas, k: ResourceKind) -> Quota {
    match k {
        ResourceKind::Memory => q.memory,
        ResourceKind::Cpu => q.cpu,
        ResourceKind::Network => q.network,
        ResourceKind::Io => q.io,
        ResourceKind::Fs => q.fs,
    }
}

/// `q` with the quota of resource `k` replaced by `v`.
pub open spec fn with_quota(q: AgentQuotas, k: ResourceKind, v: Quota) -> AgentQuotas {
    match k {
        ResourceKind::Memory => AgentQuotas { memory: v, ..q },
        ResourceKind::Cpu => AgentQuotas { cpu: v, ..q },
        ResourceKind::Network => AgentQuotas { network: v, ..q },
        ResourceKind::Io => AgentQuotas { io: v, ..q },
        ResourceKind::Fs => AgentQuotas { fs: v, ..q },
    }
}

/// Whether `amount` more fits under the quota.
pub open spec fn fits(q: Quota, amount: u64) -> bool {
    q.used + amount <= q.limit
}

/// The quota after `amount` is taken from it.
pub open spec fn taken(q: Quota, amount: u64) -> Quota {
    Quota { used: (q.used + amount) as u64, ..q }
}

/// The quota after `amount` is given back, never going below zero use.
pub open spec fn given_back(q: Quota, amount: u64) -> Quota {
    Quota { used: if q.used >= amount { (q.used - amount) as u64 } else { 0 }, ..q }
}

fn default_agent_quotas() -> (q: AgentQuotas)
    ensures
        q == default_quotas(),
{
    AgentQuotas {
        memory: Quota { limit: 1073741824u64, used: 0 },
        cpu: Quota { limit: 100, used: 0 },
        network: Quota { limit: 104857600u64, used: 0 },
        io: Quota { limit: 1000, used: 0 },
        fs: Quota { limit: 10737418240u64, used: 0 },
    }
}

impl Quota {
    fn check(&self, amount: u64) -> (r: bool)
        ensures
            r == fits(*self, amount),
    {
        self.used <= self.limit && amount <= self.limit - self.used
    }

    fn allocate(&mut self, amount: u64) -> (r: bool)
        ensures
            r == fits(*old(self), amount),
            *final(self) == (if r { taken(*old(self), amount) } else { *old(self) }),
    {
        if self.check(amount) {
            self.used = self.used + amount;
            true
        } else {
            false
        }
    }

    fn release(&mut self, amount: u64)
        ensures
            *final(self) == given_back(*old(self), amount),
    {
        self.used = self.used.saturating_sub(amount);
    }
}

fn get_quota(q: &AgentQuotas, k: ResourceKind) -> (r: Quota)
    ensures
        r == quota_of(*q, k),
{
    match k {
        ResourceKind::Memory => q.memory,
        ResourceKind::Cpu => q.cpu,
        ResourceKind::Network => q.network,
        ResourceKind::Io => q.io,
        ResourceKind::Fs => q.fs,
    }
}

fn set_quota(q: &mut AgentQuotas, k: ResourceKind, v: Quota)
    ensures
        *final(q) == with_quota(*old(q), k, v),
{
    match k {
        ResourceKind::Memory => q.memory = v,
        ResourceKind::Cpu => q.cpu = v,
        ResourceKind::Network => q.network = v,
        ResourceKind::Io => q.io = v,
        ResourceKind::Fs => q.fs = v,
    }
}

/// Enforces per-agent quotas across all subsystems.
pub struct QuotaManager {
    quotas: BTreeMap<u64, AgentQuotas>,
    statistics: BTreeMap<u64, QuotaStatistics>,
}

impl QuotaManager {
    /// The quotas of each agent seen so far.
    pub closed spec fn quotas(&self) -> Map<u64, AgentQuotas> {
        self.quotas@
    }

    /// The counters of each agent seen so far.
    pub closed spec fn statistics(&self) -> Map<u64, QuotaStatistics> {
        self.statistics@
    }

    /// The quotas of `agent`, the defaults for an agent not seen before.
    pub open spec fn quotas_or_default(&self, agent: u64) -> AgentQuotas {
        if self.quotas().contains_key(agent) {
            self.quotas()[agent]
        } else {
            default_quotas()
        }
    }

    /// The counters of `agent`, zero for an agent not seen before.
    pub open spec fn statistics_or_zero(&self, agent: u64) -> QuotaStatistics {
        if self.statistics().contains_key(agent) {
            self.statistics()[agent]
        } else {
            zero_statistics()
        }
    }

    /// Whether `agent`'s counters can all be incremented once more.
    pub open spec fn counters_fit(&self, agent: u64) -> bool {
        let s = self.statistics_or_zero(agent);
        &&& s.total_checks < u64::MAX
        &&& s.total_allocations < u64::MAX
        &&& s.total_releases < u64::MAX
        &&& s.quota_exceeded_count < u64::MAX
    }

    /// Whether `amount` of the named resource fits under `agent`'s quota.
    pub open spec fn would_fit(&self, agent: u64, resource: Seq<char>, amount: u64) -> bool {
        match resource_of(resource) {
            Some(k) => fits(quota_of(self.quotas_or_default(agent), k), amount),
            None => false,
        }
    }

    pub fn new() -> (r: Self)
        ensures
            r.quotas() == Map::<u64, AgentQuotas>::empty(),
            r.statistics() == Map::<u64, QuotaStatistics>::empty(),
    {
        QuotaManager { quotas: BTreeMap::new(), statistics: BTreeMap::new() }
    }

    fn stats_of(&self, agent_id: u64) -> (s: QuotaStatistics)
        ensures
            s == self.statistics_or_zero(agent_id),
    {
        match self.statistics.get(&agent_id) {
            Some(s) => *s,
            None => QuotaStatistics {
                total_checks: 0,
                total_allocations: 0,
                total_releases: 0,
                quota_exceeded_count: 0,
                last_exceeded: 0,
            },
        }
    }

    fn quotas_of(&self, agent_id: u64) -> (q: AgentQuotas)
        ensures
            q == self.quotas_or_default(agent_id),
    {
        match self.quotas.get(&agent_id) {
            Some(q) => *q,
            None => default_agent_quotas(),
        }
    }

    /// Whether `agent_id` may use `amount` more of `resource`. The agent gets
    /// default quotas and zero counters if it had none; its check counter goes
    /// up by one, and a refusal also counts as an exceeded quota (time 0)
    /// and is published on `events`.
    pub fn check(
        &mut self,
        agent_id: u64,
        resource: &str,
        amount: u64,
        events: &mut Option<KernelEventSystem>,
    ) -> (r: bool)
        requires
            old(self).counters_fit(agent_id),
        ensures
            r == old(self).would_fit(agent_id, resource@, amount),
            published(*old(events), *final(events), quota_alert(agent_id, r)),
            final(self).quotas() == old(self).quotas().insert(
                agent_id,
                old(self).quotas_or_default(agent_id),
            ),
            final(self).statistics() == old(self).statistics().insert(
                agent_id,
                ({
                    let s = old(self).statistics_or_zero(agent_id);
                    if r {
                        QuotaStatistics { total_checks: (s.total_checks + 1) as u64, ..s }
                    } else {
                        QuotaStatistics {
                            total_checks: (s.total_checks + 1) as u64,
                            quota_exceeded_count: (s.quota_exceeded_count + 1) as u64,
                            last_exceeded: 0,
                            ..s
                        }
                    }
                }),
            ),
    {
        let mut stat = self.stats_of(agent_id);
        stat.total_checks = stat.total_checks + 1;
        let q = self.quotas_of(agent_id);
        self.quotas.insert(agent_id, q);
        let result = match resource_kind(resource) {
            Some(k) => get_quota(&q, k).check(amount),
            None => false,
        };
        if !result {
            stat.quota_exceeded_count = stat.quota_exceeded_count + 1;
            stat.last_exceeded = 0;
            let alert = KernelEvent {
                event_type: EventType::Security,
                timestamp: 0,
                agent_id: Some(agent_id),
                data: Vec::new(),
            };
            publish_event(events, alert);
        } else {
            proof {
                lemma_published_nothing(*events);
            }
        }
        self.statistics.insert(agent_id, stat);
        result
    }

    /// Takes `amount` of `resource` from `agent_id`'s quota when it fits
    /// (after a [`check`](Self::check), which it counts as one); a granted
    /// request also counts as an allocation.
    pub fn allocate(
        &mut self,
        agent_id: u64,
        resource: &str,
        amount: u64,
        events: &mut Option<KernelEventSystem>,
    ) -> (r: bool)
        requires
            old(self).counters_fit(agent_id),
        ensures
            r == old(self).would_fit(agent_id, resource@, amount),
            published(*old(events), *final(events), quota_alert(agent_id, r)),
            final(self).quotas() == old(self).quotas().insert(
                agent_id,
                ({
                    let q = old(self).quotas_or_default(agent_id);
                    match resource_of(resource@) {
                        Some(k) if r => with_quota(q, k, taken(quota_of(q, k), amount)),
                        _ => q,
                    }
                }),
            ),
            final(self).statistics() == old(self).statistics().insert(
                agent_id,
                ({
                    let s = old(self).statistics_or_zero(agent_id);
                    if r {
                        QuotaStatistics {
                            total_checks: (s.total_checks + 1) as u64,
                            total_allocations: (s.total_allocations + 1) as u64,
                            ..s
                        }
                    } else {
                        QuotaStatistics {
                            total_checks: (s.total_checks + 1) as u64,
                            quota_exceeded_count: (s.quota_exceeded_count + 1) as u64,
                            last_exceeded: 0,
                            ..s
                        }
                    }
                }),
            ),
    {
        if !self.check(agent_id, resource, amount, events) {
            return false;
        }
        let mut stat = self.stats_of(agent_id);
        stat.total_allocations = stat.total_allocations + 1;
        self.statistics.insert(agent_id, stat);
        let mut q = self.quotas_of(agent_id);
        let k = resource_kind(resource).unwrap();
        let mut one = get_quota(&q, k);
        let ok = one.allocate(amount);
        set_quota(&mut q, k, one);
        self.quotas.insert(agent_id, q);
        ok
    }

    /// Gives `amount` of `resource` back to `agent_id`'s quota (use never
    /// goes below zero) and counts a release; agents never seen are ignored.
    pub fn release(&mut self, agent_id: u64, resource: &str, amount: u64)
        requires
            old(self).counters_fit(agent_id),
        ensures
            final(self).statistics() == (if old(self).statistics().contains_key(agent_id) {
                old(self).statistics().insert(
                    agent_id,
                    QuotaStatistics {
                        total_releases: (old(self).statistics()[agent_id].total_releases
                            + 1) as u64,
                        ..old(self).statistics()[agent_id]
                    },
                )
            } else {
                old(self).statistics()
            }),
            final(self).quotas() == (if old(self).quotas().contains_key(agent_id) {
                match resource_of(resource@) {
                    Some(k) => old(self).quotas().insert(
                        agent_id,
                        with_quota(
                            old(self).quotas()[agent_id],
                            k,
                            given_back(quota_of(old(self).quotas()[agent_id], k), amount),
                        ),
                    ),
                    None => old(self).quotas(),
                }
            } else {
                old(self).quotas()
            }),
    {
        match self.statistics.get(&agent_id) {
            Some(s) => {
                let mut stat = *s;
                stat.total_releases = stat.total_releases + 1;
                self.statistics.insert(agent_id, stat);
            },
            None => {},
        }
        match self.quotas.get(&agent_id) {
            Some(qr) => {
                let mut q = *qr;
                match resource_kind(resource) {
                    Some(k) => {
                        let mut one = get_quota(&q, k);
                        one.release(amount);
                        set_quota(&mut q, k, one);
                        self.quotas.insert(agent_id, q);
                    },
                    None => {},
                }
            },
            None => {},
        }
    }

    /// `(used, limit)` of `resource` for `agent_id`; `None` for an agent
    /// never seen or an unknown resource.
    pub fn get_usage(&self, agent_id: u64, resource: &str) -> (r: Option<(u64, u64)>)
        ensures
            r == (if self.quotas().contains_key(agent_id) {
                match resource_of(resource@) {
                    Some(k) => Some(
                        (
                            quota_of(self.quotas()[agent_id], k).used,
                            quota_of(self.quotas()[agent_id], k).limit,
                        ),
                    ),
                    None => None,
                }
            } else {
                None
            }),
    {
        match self.quotas.get(&agent_id) {
            Some(q) => match resource_kind(resource) {
                Some(k) => {
                    let one = get_quota(q, k);
                    Some((one.used, one.limit))
                },
                None => None,
            },
            None => None,
        }
    }

    /// Sets the limit of `resource` for `agent_id`, who gets default quotas
    /// first if it had none (also for an unknown resource, which returns false).
    pub fn set_limit(&mut self, agent_id: u64, resource: &str, limit: u64) -> (r: bool)
        ensures
            r == (resource_of(resource@) is Some),
            final(self).statistics() == old(self).statistics(),
            final(self).quotas() == old(self).quotas().insert(
                agent_id,
                ({
                    let q = old(self).quotas_or_default(agent_id);
                    match resource_of(resource@) {
                        Some(k) => with_quota(q, k, Quota { limit, ..quota_of(q, k) }),
                        None => q,
                    }
                }),
            ),
    {
        let mut q = self.quotas_of(agent_id);
        let r = match resource_kind(resource) {
            Some(k) => {
                let mut one = get_quota(&q, k);
                one.limit = limit;
                set_quota(&mut q, k, one);
                true
            },
            None => false,
        };
        self.quotas.insert(agent_id, q);
        r
    }

    /// `(checks, allocations, releases, exceeded)` counted for `agent_id`.
    pub fn get_statistics(&self, agent_id: u64) -> (r: Option<(u64, u64, u64, u64)>)
        ensures
            r == (if self.statistics().contains_key(agent_id) {
                let s = self.statistics()[agent_id];
                Some((s.total_checks, s.total_allocations, s.total_releases, s.quota_exceeded_count))
            } else {
                None
            }),
    {
        match self.statistics.get(&agent_id) {
            Some(s) => Some((s.total_checks, s.total_allocations, s.total_releases, s.quota_exceeded_count)),
            None => None,
        }
    }
}

/// Giving back what was just taken restores the quota.
pub proof fn law_release_undoes_allocate(q: Quota, amount: u64)
    requires
        fits(q, amount),
    ensures
        given_back(taken(q, amount), amount) == q,
        taken(q, amount).used <= taken(q, amount).limit,
{
}

/// Each resource name reads and writes its own quota: "memory" the memory
/// quota, "cpu" the processor quota, "network" the network quota, "io" the
/// I/O quota and "fs" the file-system quota; setting one leaves the others
/// as they were.
pub proof fn law_names_select_their_quota(q: AgentQuotas, v: Quota)
    ensures
        quota_of(q, resource_of(seq!['m', 'e', 'm', 'o', 'r', 'y'])->0) == q.memory,
        quota_of(q, resource_of(seq!['c', 'p', 'u'])->0) == q.cpu,
        quota_of(q, resource_of(seq!['n', 'e', 't', 'w', 'o', 'r', 'k'])->0) == q.network,
        quota_of(q, resource_of(seq!['i', 'o'])->0) == q.io,
        quota_of(q, resource_of(seq!['f', 's'])->0) == q.fs,
        with_quota(q, resource_of(seq!['m', 'e', 'm', 'o', 'r', 'y'])->0, v) == (AgentQuotas {
            memory: v,
            ..q
        }),
        with_quota(q, resource_of(seq!['c', 'p', 'u'])->0, v) == (AgentQuotas { cpu: v, ..q }),
        with_quota(q, resource_of(seq!['n', 'e', 't', 'w', 'o', 'r', 'k'])->0, v) == (AgentQuotas {
            network: v,
            ..q
        }),
        with_quota(q, resource_of(seq!['i', 'o'])->0, v) == (AgentQuotas { io: v, ..q }),
        with_quota(q, resource_of(seq!['f', 's'])->0, v) == (AgentQuotas { fs: v, ..q }),
{
    assert(seq!['m', 'e', 'm', 'o', 'r', 'y'] != seq!['c', 'p', 'u']);
}

/// An agent never seen before has the default quotas, none of them used:
/// 1 GiB of memory, 100% of the processor, 100 MiB of network, 1000 I/O
/// operations and 10 GiB of file system. An amount fits exactly when it is
/// no more than that limit.
pub proof fn law_default_quotas(m: QuotaManager, agent: u64, amount: u64)
    requires
        !m.quotas().contains_key(agent),
    ensures
        m.quotas_or_default(agent).memory == (Quota { limit: 1073741824, used: 0 }),
        m.quotas_or_default(agent).cpu == (Quota { limit: 100, used: 0 }),
        m.quotas_or_default(agent).network == (Quota { limit: 104857600, used: 0 }),
        m.quotas_or_default(agent).io == (Quota { limit: 1000, used: 0 }),
        m.quotas_or_default(agent).fs == (Quota { limit: 10737418240, used: 0 }),
        m.would_fit(agent, seq!['m', 'e', 'm', 'o', 'r', 'y'], amount) <==> amount <= 1073741824,
        m.would_fit(agent, seq!['c', 'p', 'u'], amount) <==> amount <= 100,
        m.would_fit(agent, seq!['n', 'e', 't', 'w', 'o', 'r', 'k'], amount) <==> amount <= 104857600,
        m.would_fit(agent, seq!['i', 'o'], amount) <==> amount <= 1000,
        m.would_fit(agent, seq!['f', 's'], amount) <==> amount <= 10737418240,
{
    law_names_select_their_quota(m.quotas_or_default(agent), Quota { limit: 0, used: 0 });
}

/// An amount fits a quota exactly when the use after taking it stays
/// within the limit; taking it adds it to the use, and giving an amount
/// back takes it off the use, down to zero at most; the limit stays.
pub proof fn law_quota_arithmetic(q: Quota, amount: u64)
    ensures
        fits(q, amount) <==> q.used + amount <= q.limit,
        fits(q, amount) ==> taken(q, amount).used == q.used + amount && taken(q, amount).limit == q.limit,
        given_back(q, amount).limit == q.limit,
        given_back(q, amount).used == if q.used >= amount {
            q.used - amount
        } else {
            0
        },
{
}

} // verus!
