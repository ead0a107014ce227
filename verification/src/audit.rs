//! Auditing: an append-only record of critical actions, a hash-chained log
//! of the same events, and the system that ties them to attestation.

use vstd::prelude::*;
use crate::attestation::{
    enclave_outcome, quote_nonce_of, quote_outcome, AttestationEvidence, AttestationManager,
};
use crate::drivers::enclave::EnclaveDriver;
use crate::drivers::sgx::SgxDriver;
use crate::drivers::tpm::{TpmDevice, TpmError};
use crate::events::{self, event_view, EventType, KernelEvent, KernelEventSystem};

verus! {

/// What an audit event is about.
#[derive(Clone, Copy, PartialEq, Eq, Structural, Debug)]
pub enum AuditEventType {
    AgentSpawn,
    AgentKill,
    CapabilityGrant,
    CapabilityRevoke,
    SecurityViolation,
    ResourceExceeded,
    SystemEvent,
}

/// How the audited action ended.
#[derive(Clone, Copy, PartialEq, Eq, Structural, Debug)]
pub enum AuditResult {
    Success,
    Failure,
    Denied,
}

/// An audit event.
pub struct AuditEvent {
    pub timestamp: u64,
    pub event_type: AuditEventType,
    pub agent_id: Option<u64>,
    pub action: String,
    pub result: AuditResult,
    pub metadata: Vec<u8>,
}

/// Which events to return.
#[derive(Clone, Copy, Debug)]
pub struct AuditFilter {
    pub agent_id: Option<u64>,
    pub event_type: Option<AuditEventType>,
}

/// An audit event as plain values.
pub open spec fn audit_view(e: AuditEvent) -> (u64, AuditEventType, Option<u64>, Seq<char>, AuditResult, Seq<u8>) {
    (e.timestamp, e.event_type, e.agent_id, e.action@, e.result, e.metadata@)
}

/// Whether `e` passes `filter`: only the agent is looked at.
pub open spec fn passes(e: AuditEvent, filter: Option<AuditFilter>) -> bool {
    match filter {
        Some(f) => match f.agent_id {
            Some(a) => e.agent_id == Some(a),
            None => true,
        },
        None => true,
    }
}

/// The events of `events` that pass `filter`, in order.
pub open spec fn selected(events: Seq<AuditEvent>, filter: Option<AuditFilter>) -> Seq<AuditEvent>
    decreases events.len(),
{
    if events.len() == 0 {
        Seq::empty()
    } else if passes(events.last(), filter) {
        selected(events.drop_last(), filter).push(events.last())
    } else {
        selected(events.drop_last(), filter)
    }
}

fn copy_event(e: &AuditEvent) -> (c: AuditEvent)
    ensures
        audit_view(c) == audit_view(*e),
{
    let mut meta: Vec<u8> = Vec::new();
    let mut i: usize = 0;
    while i < e.metadata.len()
        invariant
            i <= e.metadata@.len(),
            meta@ == e.metadata@.subrange(0, i as int),
        decreases e.metadata.len() - i,
    {
        meta.push(e.metadata[i]);
        i = i + 1;
    }
    AuditEvent {
        timestamp: e.timestamp,
        event_type: e.event_type,
        agent_id: e.agent_id,
        action: e.action.clone(),
        result: e.result,
        metadata: meta,
    }
}

/// The append-only record of audit events.
pub struct AuditManager {
    events: Vec<AuditEvent>,
}

impl AuditManager {
    /// The events, oldest first.
    pub closed spec fn events(&self) -> Seq<AuditEvent> {
        self.events@
    }

    pub fn new() -> (m: Self)
        ensures
            m.events() == Seq::<AuditEvent>::empty(),
    {
        AuditManager { events: Vec::new() }
    }

    /// Appends `event`.
    pub fn record(&mut self, event: AuditEvent)
        ensures
            final(self).events() == old(self).events().push(event),
    {
        self.events.push(event);
    }

    /// The events that pass `filter`, oldest first; a filter only narrows
    /// by agent.
    pub fn get_events(&self, filter: Option<AuditFilter>) -> (r: Vec<&AuditEvent>)
        ensures
            r@.map_values(|e: &AuditEvent| *e) == selected(self.events(), filter),
    {
        let mut r: Vec<&AuditEvent> = Vec::new();
        let mut i: usize = 0;
        while i < self.events.len()
            invariant
                i <= self.events@.len(),
                r@.map_values(|e: &AuditEvent| *e) == selected(
                    self.events@.subrange(0, i as int),
                    filter,
                ),
            decreases self.events.len() - i,
        {
            proof {
                assert(self.events@.subrange(0, i as int + 1).drop_last()
                    =~= self.events@.subrange(0, i as int));
            }
            let e = &self.events[i];
            let keep = match filter {
                Some(f) => match f.agent_id {
                    Some(a) => e.agent_id == Some(a),
                    None => true,
                },
                None => true,
            };
            let ghost before = r@;
            if keep {
                r.push(e);
                proof {
                    assert(r@.map_values(|e: &AuditEvent| *e) =~= before.map_values(
                        |e: &AuditEvent| *e,
                    ).push(*e));
                }
            }
            i = i + 1;
        }
        proof {
            assert(self.events@.subrange(0, self.events@.len() as int) =~= self.events@);
        }
        r
    }
}

/// An entry of the audit log.
pub struct AuditLogEntry {
    pub sequence: u64,
    pub event: AuditEvent,
    pub hash: Vec<u8>,
    pub signature: Vec<u8>,
}

/// The hash of an entry after `previous`; no hash function is wired in, so
/// it is empty.
pub open spec fn entry_hash(previous: Seq<u8>, event: AuditEvent) -> Seq<u8> {
    Seq::empty()
}

/// Whether entry `i` of `entries` carries the hash of its event after the
/// previous entry's hash (after nothing, for the first).
pub open spec fn link_ok(entries: Seq<AuditLogEntry>, i: int) -> bool {
    let previous = if i == 0 {
        Seq::empty()
    } else {
        entries[i - 1].hash@
    };
    entries[i].hash@ == entry_hash(previous, entries[i].event)
}

/// Whether every entry of `entries` is linked to the one before it.
pub open spec fn chain_ok(entries: Seq<AuditLogEntry>) -> bool {
    forall|i: int| 0 <= i < entries.len() ==> #[trigger] link_ok(entries, i)
}

fn calculate_hash(previous: &Vec<u8>, event: &AuditEvent) -> (h: Vec<u8>)
    ensures
        h@ == entry_hash(previous@, *event),
{
    Vec::new()
}

fn bytes_equal(a: &Vec<u8>, b: &Vec<u8>) -> (r: bool)
    ensures
        r == (a@ == b@),
{
    if a.len() != b.len() {
        return false;
    }
    let mut k: usize = 0;
    while k < a.len()
        invariant
            k <= a@.len(),
            a@.len() == b@.len(),
            forall|m: int| 0 <= m < k ==> a@[m] == b@[m],
        decreases a.len() - k,
    {
        if a[k] != b[k] {
            return false;
        }
        k = k + 1;
    }
    assert(a@ =~= b@);
    true
}

/// The hash-chained, append-only audit log.
pub struct AuditLog {
    entries: Vec<AuditLogEntry>,
}

impl AuditLog {
    /// The entries, oldest first.
    pub closed spec fn entries(&self) -> Seq<AuditLogEntry> {
        self.entries@
    }

    /// The log's invariant: the hash chain holds and sequence numbers count
    /// the entries.
    pub closed spec fn wf(&self) -> bool {
        &&& chain_ok(self.entries@)
        &&& forall|i: int| 0 <= i < self.entries@.len() ==> #[trigger] self.entries@[i].sequence == i
    }

    pub fn new() -> (l: Self)
        ensures
            l.wf(),
            l.entries() == Seq::<AuditLogEntry>::empty(),
    {
        AuditLog { entries: Vec::new() }
    }

    /// Appends `event` with the next sequence number, its hash after the
    /// last entry's, and a signature (none is wired in, so it is empty).
    pub fn append(&mut self, event: AuditEvent)
        requires
            old(self).wf(),
            old(self).entries().len() < u64::MAX,
        ensures
            final(self).wf(),
            final(self).entries().len() == old(self).entries().len() + 1,
            forall|i: int|
                0 <= i < old(self).entries().len() ==> #[trigger] final(self).entries()[i] == old(
                    self,
                ).entries()[i],
            audit_view(final(self).entries().last().event) == audit_view(event),
            final(self).entries().last().sequence == old(self).entries().len(),
    {
        let sequence = self.entries.len() as u64;
        let empty: Vec<u8> = Vec::new();
        let hash = if self.entries.len() == 0 {
            calculate_hash(&empty, &event)
        } else {
            calculate_hash(&self.entries[self.entries.len() - 1].hash, &event)
        };
        let signature: Vec<u8> = Vec::new();
        let ghost before = self.entries@;
        self.entries.push(AuditLogEntry { sequence, event, hash, signature });
        proof {
            assert forall|i: int| 0 <= i < self.entries@.len() implies #[trigger] link_ok(
                self.entries@,
                i,
            ) by {
                if i < before.len() {
                    assert(link_ok(before, i));
                    if i > 0 {
                        assert(self.entries@[i - 1] == before[i - 1]);
                    }
                }
            }
        }
    }

    /// The number of entries.
    pub fn len(&self) -> (n: usize)
        ensures
            n == self.entries().len(),
    {
        self.entries.len()
    }

    /// Checks the hash chain entry by entry.
    pub fn verify(&self) -> (r: bool)
        ensures
            r == chain_ok(self.entries()),
    {
        let mut i: usize = 0;
        while i < self.entries.len()
            invariant
                i <= self.entries@.len(),
                forall|k: int| 0 <= k < i ==> #[trigger] link_ok(self.entries@, k),
            decreases self.entries.len() - i,
        {
            let empty: Vec<u8> = Vec::new();
            let expected = if i == 0 {
                calculate_hash(&empty, &self.entries[i].event)
            } else {
                calculate_hash(&self.entries[i - 1].hash, &self.entries[i].event)
            };
            if !bytes_equal(&expected, &self.entries[i].hash) {
                assert(!link_ok(self.entries@, i as int));
                return false;
            }
            assert(link_ok(self.entries@, i as int));
            i = i + 1;
        }
        true
    }
}

/// A log kept by [`AuditLog::append`] always verifies.
pub proof fn law_appended_log_verifies(log: AuditLog)
    requires
        log.wf(),
    ensures
        chain_ok(log.entries()),
{
}

/// The callback handle under which the audit system takes security
/// events.
pub const SECURITY_EVENTS_CALLBACK: u64 = 1;

/// The callback handle under which the audit system takes agent lifecycle
/// events.
pub const LIFECYCLE_EVENTS_CALLBACK: u64 = 2;

/// The audit event, as plain values, that a kernel event delivered to
/// `callback` is recorded as: a security event is a denied security
/// violation, a lifecycle event a successful agent spawn; the time, agent
/// and data come from the kernel event.
pub open spec fn audit_for(callback: u64, e: (EventType, u64, Option<u64>, Seq<u8>)) -> Option<
    (u64, AuditEventType, Option<u64>, Seq<char>, AuditResult, Seq<u8>),
> {
    if callback == SECURITY_EVENTS_CALLBACK {
        Some((e.1, AuditEventType::SecurityViolation, e.2, "Security violation"@, AuditResult::Denied, e.3))
    } else if callback == LIFECYCLE_EVENTS_CALLBACK {
        Some((e.1, AuditEventType::AgentSpawn, e.2, "Agent lifecycle event"@, AuditResult::Success, e.3))
    } else {
        None
    }
}

fn copy_bytes(v: &Vec<u8>) -> (c: Vec<u8>)
    ensures
        c@ == v@,
{
    let mut c: Vec<u8> = Vec::new();
    let mut i: usize = 0;
    while i < v.len()
        invariant
            i <= v@.len(),
            c@ == v@.subrange(0, i as int),
        decreases v.len() - i,
    {
        c.push(v[i]);
        i = i + 1;
    }
    c
}

/// Auditing and attestation together.
pub struct AuditAttestationSystem {
    pub audit: AuditManager,
    pub attestation: AttestationManager,
    pub log: AuditLog,
}

impl AuditAttestationSystem {
    pub fn new() -> (s: Self)
        ensures
            s.audit.events() == Seq::<AuditEvent>::empty(),
            s.log.entries() == Seq::<AuditLogEntry>::empty(),
            s.log.wf(),
    {
        AuditAttestationSystem {
            audit: AuditManager::new(),
            attestation: AttestationManager::new(),
            log: AuditLog::new(),
        }
    }

    /// Records `event` in the audit record and in the log.
    pub fn record_event(&mut self, event: AuditEvent)
        requires
            old(self).log.wf(),
            old(self).log.entries().len() < u64::MAX,
        ensures
            final(self).log.wf(),
            final(self).audit.events().len() == old(self).audit.events().len() + 1,
            audit_view(final(self).audit.events().last()) == audit_view(event),
            final(self).log.entries().len() == old(self).log.entries().len() + 1,
            audit_view(final(self).log.entries().last().event) == audit_view(event),
    {
        let copy = copy_event(&event);
        self.audit.record(copy);
        self.log.append(event);
    }

    /// Subscribes the audit system on `events`, when it is up: security
    /// events under [`SECURITY_EVENTS_CALLBACK`], then agent lifecycle
    /// events under [`LIFECYCLE_EVENTS_CALLBACK`], for every agent.
    pub fn subscribe_to_events(&self, events: &mut Option<KernelEventSystem>)
        ensures
            (*final(events)) is Some == (*old(events)) is Some,
            (*old(events)) matches Some(s0) ==> {
                let s1 = (*final(events))->0;
                let first = s0.bus.next();
                let second = first.wrapping_add(1);
                &&& s1.bus.subscriptions() == s0.bus.subscriptions().insert(
                    first,
                    (seq![EventType::Security], None, SECURITY_EVENTS_CALLBACK),
                ).insert(second, (seq![EventType::AgentLifecycle], None, LIFECYCLE_EVENTS_CALLBACK))
                &&& s1.bus.queue() == s0.bus.queue()
                &&& s1.bus.next() == second.wrapping_add(1)
            },
    {
        let security = vec![EventType::Security];
        let lifecycle = vec![EventType::AgentLifecycle];
        proof {
            assert(security@ =~= seq![EventType::Security]);
            assert(lifecycle@ =~= seq![EventType::AgentLifecycle]);
        }
        events::subscribe(events, security, None, SECURITY_EVENTS_CALLBACK);
        events::subscribe(events, lifecycle, None, LIFECYCLE_EVENTS_CALLBACK);
    }

    /// Records the kernel event `event` delivered to `callback`, as
    /// [`audit_for`] says; an event for another callback is ignored.
    pub fn on_kernel_event(&mut self, callback: u64, event: &KernelEvent)
        requires
            old(self).log.wf(),
            old(self).log.entries().len() < u64::MAX,
        ensures
            final(self).log.wf(),
            match audit_for(callback, event_view(*event)) {
                Some(v) => {
                    &&& final(self).audit.events().len() == old(self).audit.events().len() + 1
                    &&& audit_view(final(self).audit.events().last()) == v
                    &&& final(self).log.entries().len() == old(self).log.entries().len() + 1
                    &&& audit_view(final(self).log.entries().last().event) == v
                },
                None => final(self).audit.events() == old(self).audit.events() && final(self).log.entries()
                    == old(self).log.entries(),
            },
    {
        let (event_type, action, result) = if callback == SECURITY_EVENTS_CALLBACK {
            (AuditEventType::SecurityViolation, "Security violation", AuditResult::Denied)
        } else if callback == LIFECYCLE_EVENTS_CALLBACK {
            (AuditEventType::AgentSpawn, "Agent lifecycle event", AuditResult::Success)
        } else {
            return ;
        };
        proof {
            reveal_strlit("Security violation");
            reveal_strlit("Agent lifecycle event");
        }
        let audit_event = AuditEvent {
            timestamp: event.timestamp,
            event_type,
            agent_id: event.agent_id,
            action: action.to_string(),
            result,
            metadata: copy_bytes(&event.data),
        };
        self.record_event(audit_event);
    }

    /// Gathers attestation evidence; see
    /// [`AttestationManager::generate_evidence`].
    pub fn generate_attestation<F: Fn(TpmDevice, &[u8]) -> Result<Vec<u8>, TpmError>>(
        &mut self,
        nonce: Option<Vec<u8>>,
        device: Option<TpmDevice>,
        transport: &F,
        enclave_driver: Option<EnclaveDriver>,
        sgx: Option<&SgxDriver>,
    ) -> (e: AttestationEvidence)
        requires
            forall|d: TpmDevice, c: &[u8]| call_requires(*transport, (d, c)),
            sgx matches Some(s) ==> (s.enclaves().contains_key(1) ==> s.enclaves()[1].measurement@.len()
                <= 320),
        ensures
            e.signature@ == Seq::<u8>::empty(),
            quote_outcome(*transport, device, quote_nonce_of(nonce), e.tpm_quote),
            enclave_outcome(enclave_driver, sgx, e.enclave_attestation),
    {
        self.attestation.generate_evidence(nonce, device, transport, enclave_driver, sgx)
    }

    /// Checks attestation evidence; no evidence passes while signatures
    /// cannot be verified.
    pub fn verify_attestation(&self, evidence: &AttestationEvidence) -> (r: bool)
        ensures
            !r,
    {
        self.attestation.verify(evidence)
    }
}

/// Records an event of the kernel at `now` with `action`, if the audit
/// system is up.
pub fn record_audit_event(
    system: &mut Option<AuditAttestationSystem>,
    event_type: AuditEventType,
    agent_id: Option<u64>,
    action: &str,
    result: AuditResult,
    metadata: Vec<u8>,
    now: u64,
)
    requires
        (*old(system)) is Some ==> (*old(system))->0.log.wf() && (*old(system))->0.log.entries().len()
            < u64::MAX,
    ensures
        (*final(system)) is Some == (*old(system)) is Some,
        (*old(system)) is Some ==> (*final(system))->0.audit.events().len() == (*old(
            system
        ))->0.audit.events().len() + 1 && audit_view((*final(system))->0.audit.events().last())
            == (now, event_type, agent_id, action@, result, metadata@),
{
    match system {
        Some(s) => {
            let event = AuditEvent {
                timestamp: now,
                event_type,
                agent_id,
                action: action.to_string(),
                result,
                metadata,
            };
            s.record_event(event);
        },
        None => {},
    }
}

/// What a query of the audit record gives: with no filter, or with a
/// filter that names no agent, every event in the order recorded, whatever
/// event type the filter names; with a filter that names an agent, exactly
/// the events of that agent, in the order recorded.
pub proof fn law_query_selects_by_agent(events: Seq<AuditEvent>, event_type: Option<AuditEventType>, agent: u64)
    ensures
        selected(events, None) == events,
        selected(events, Some(AuditFilter { agent_id: None, event_type })) == events,
        selected(events, Some(AuditFilter { agent_id: Some(agent), event_type })) == events.filter(
            |e: AuditEvent| e.agent_id == Some(agent),
        ),
    decreases events.len(),
{
    reveal_with_fuel(Seq::filter, 1);
    if events.len() > 0 {
        law_query_selects_by_agent(events.drop_last(), event_type, agent);
        assert(selected(events.drop_last(), None).push(events.last()) =~= events);
    }
}

} // verus!
