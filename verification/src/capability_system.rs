//! The capability system: token validation, quotas, resource groups and
//! revocation behind one interface.

use vstd::prelude::*;
use std::collections::BTreeMap;
use crate::capability::{Capabilities, CapabilityToken};
use crate::quota::QuotaManager;
use crate::resource_group::ResourceGroup;
use crate::revocation::RevocationManager;
use crate::events::{publish_event, published, EventType, KernelEvent, KernelEventSystem};
use crate::quota::quota_alert;

verus! {

broadcast use vstd::std_specs::btree::group_btree_axioms;

/// Whether two resource groups hold the same values.
pub open spec fn same_group(a: ResourceGroup, b: ResourceGroup) -> bool {
    &&& a.agent_id == b.agent_id
    &&& a.cpu_quota == b.cpu_quota
    &&& a.memory_quota == b.memory_quota
    &&& a.io_quota == b.io_quota
    &&& a.network_quota == b.network_quota
    &&& a.fs_quota == b.fs_quota
    &&& a.children@ == b.children@
}

/// Uniform capability model across all kernel subsystems.
pub struct CapabilitySystem {
    pub quota_manager: QuotaManager,
    pub revocation_manager: RevocationManager,
    pub resource_groups: BTreeMap<u64, ResourceGroup>,
}

impl CapabilitySystem {
    /// The resource group of each agent that has one.
    pub closed spec fn groups(&self) -> Map<u64, ResourceGroup> {
        self.resource_groups@
    }

    pub fn new() -> (s: Self)
        ensures
            s.revocation_manager@ == Set::<u64>::empty(),
            s.quota_manager.quotas() == Map::<u64, crate::quota::AgentQuotas>::empty(),
            s.quota_manager.statistics() == Map::<u64, crate::quota::QuotaStatistics>::empty(),
            s.groups() == Map::<u64, ResourceGroup>::empty(),
    {
        CapabilitySystem {
            quota_manager: QuotaManager::new(),
            revocation_manager: RevocationManager::new(),
            resource_groups: BTreeMap::new(),
        }
    }

    /// A token is valid unless it has been revoked. Expiry and signature are
    /// checked by the caller, which has the time and the verifier.
    pub fn validate(&self, token: &CapabilityToken) -> (r: bool)
        ensures
            r == !self.revocation_manager@.contains(token.token_id),
    {
        !self.revocation_manager.is_revoked(token.token_id)
    }

    /// Whether `agent_id` may use `amount` more of `resource`; see
    /// [`QuotaManager::check`].
    pub fn check_quota(
        &mut self,
        agent_id: u64,
        resource: &str,
        amount: u64,
        events: &mut Option<KernelEventSystem>,
    ) -> (r: bool)
        requires
            old(self).quota_manager.counters_fit(agent_id),
        ensures
            r == old(self).quota_manager.would_fit(agent_id, resource@, amount),
            published(*old(events), *final(events), quota_alert(agent_id, r)),
            final(self).quota_manager.quotas() == old(self).quota_manager.quotas().insert(
                agent_id,
                old(self).quota_manager.quotas_or_default(agent_id),
            ),
            final(self).revocation_manager@ == old(self).revocation_manager@,
            final(self).groups() == old(self).groups(),
    {
        self.quota_manager.check(agent_id, resource, amount, events)
    }

    /// A copy of `agent_id`'s resource group, if it has one.
    pub fn get_resource_group(&self, agent_id: u64) -> (r: Option<ResourceGroup>)
        ensures
            r is Some <==> self.groups().contains_key(agent_id),
            r matches Some(g) ==> same_group(g, self.groups()[agent_id]),
    {
        match self.resource_groups.get(&agent_id) {
            Some(g) => Some(g.duplicate()),
            None => None,
        }
    }

    /// Revokes `token_id`; from now on tokens with this identifier fail
    /// validation. The revocation is published on `events` as a security
    /// event of `agent_id` at time 0.
    pub fn revoke(&mut self, token_id: u64, agent_id: Option<u64>, events: &mut Option<KernelEventSystem>)
        ensures
            final(self).revocation_manager@ == old(self).revocation_manager@.insert(token_id),
            published(
                *old(events),
                *final(events),
                seq![(EventType::Security, 0u64, agent_id, Seq::<u8>::empty())],
            ),
            final(self).quota_manager == old(self).quota_manager,
            final(self).groups() == old(self).groups(),
    {
        self.revocation_manager.revoke(token_id);
        let notice = KernelEvent { event_type: EventType::Security, timestamp: 0, agent_id, data: Vec::new() };
        publish_event(events, notice);
    }

    /// Whether `token_id` has been revoked.
    pub fn is_revoked(&self, token_id: u64) -> (r: bool)
        ensures
            r == self.revocation_manager@.contains(token_id),
    {
        self.revocation_manager.is_revoked(token_id)
    }
}

/// Validates a token against the capability system; false when the
/// system has not been set up.
pub fn validate_capability(system: Option<&CapabilitySystem>, token: &CapabilityToken) -> (r: bool)
    ensures
        r == match system {
            Some(s) => !s.revocation_manager@.contains(token.token_id),
            None => false,
        },
{
    match system {
        Some(s) => s.validate(token),
        None => false,
    }
}

/// Whether `token` is present, valid and holds one of the bits of `capability`.
pub fn has_capability(
    system: Option<&CapabilitySystem>,
    token: Option<&CapabilityToken>,
    capability: Capabilities,
) -> (r: bool)
    ensures
        r == match (system, token) {
            (Some(s), Some(t)) => !s.revocation_manager@.contains(t.token_id) && t.capabilities
                & capability.bits != 0,
            _ => false,
        },
{
    match token {
        Some(tok) => {
            if !validate_capability(system, tok) {
                return false;
            }
            tok.has_capability(capability)
        },
        None => false,
    }
}

/// A revoked token never validates again.
pub proof fn law_revoked_tokens_stay_invalid(before: Set<u64>, token_id: u64)
    ensures
        before.insert(token_id).contains(token_id),
{
}

} // verus!
