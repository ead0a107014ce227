//! Agent lifecycle: hooks that run by priority before each operation, the
//! operations themselves (spawn, clone, merge, split, upgrade, specialize
//! and kill) over the agent memory pool, the memory fabric and the event
//! system, and an audit entry for every attempt.
//!
//! The hooks are callbacks of the embedding code: [`AgentLifecycleManager::run_hooks`]
//! calls them through a closure, and [`AgentLifecycleManager::execute`] takes
//! their verdict.

use vstd::prelude::*;
use vstd::slice::{slice_subrange, slice_to_vec};
use crate::serialize::{deserialize_u64, deserialize_u32, u64_of_le, u32_of_le};
use crate::agent_pool::{AgentMemoryPool, allocated, page_notices, pages_mapped, CANONICAL_LIMIT, pages_for};
use crate::physical::BitmapFrameAllocator;
use crate::virtual_mem::{MapRequest, PagingState};
use crate::fabric::{
    MemoryFabricManager,
    MemoryRegionType,
    MemoryRegion,
    MemoryFabricError,
    created,
    room_for,
    region_start,
    overlaps_any,
    without_ephemeral,
    leases_without_expired,
    region_notice,
};
use crate::events::{
    KernelEventSystem, KernelEvent, EventType, publish_event, published, lemma_published_chain,
    lemma_published_nothing,
};

verus! {

/// Memory given to a spawned agent.
pub const SPAWN_MEMORY: usize = 0x10_0000;

/// Size of the region that holds a clone's state.
pub const CLONE_REGION_SIZE: u64 = 0x10_0000;

/// Size of the buffer region of a merge.
pub const MERGE_REGION_SIZE: u64 = 0x10_0000;

/// Size of the region of an agent split off.
pub const SPLIT_REGION_SIZE: u64 = 0x8_0000;

/// How far the identifier of an agent split off lies from its origin's.
pub const SPLIT_ID_OFFSET: u64 = 1_000_000;

/// Memory limit of a spawned agent whose metadata gives none.
pub const DEFAULT_MEMORY_LIMIT: u64 = 0x4000_0000;

/// CPU limit, in percent, of a spawned agent whose metadata gives none.
pub const DEFAULT_CPU_LIMIT: u32 = 100;

/// Multiplier that spreads agent identifiers when a clone gets a fresh one.
pub const CLONE_ID_MULTIPLIER: u64 = 0x9e37_79b9;

/// Fresh agent identifiers keep the top bit clear.
pub const AGENT_ID_MASK: u64 = 0x7FFF_FFFF_FFFF_FFFF;

/// A lifecycle operation.
#[derive(Clone, Copy, PartialEq, Eq, Structural, Debug)]
pub enum LifecycleOperation {
    Spawn,
    Clone,
    Merge,
    Split,
    Upgrade,
    Specialize,
    Kill,
}

/// Why a lifecycle operation failed.
#[derive(Clone, Copy, PartialEq, Eq, Structural, Debug)]
pub enum LifecycleError {
    InvalidAgent,
    InvalidOperation,
    ResourceExhausted,
    SecurityViolation,
    DependencyFailed,
}

/// What a hook is told about the operation.
pub struct LifecycleContext {
    pub operation: LifecycleOperation,
    pub agent_id: u64,
    pub target_id: Option<u64>,
    pub metadata: Vec<u8>,
}

/// A hook on an operation; the callback is a handle that the embedding
/// code maps to the function it stands for. Lower priorities run first.
#[derive(Clone, Copy, PartialEq, Eq, Structural, Debug)]
pub struct LifecycleHook {
    pub hook_type: LifecycleOperation,
    pub callback: u64,
    pub priority: u32,
}

/// The record of one attempted operation.
#[derive(Clone, Copy, Debug)]
pub struct LifecycleAuditEntry {
    pub timestamp: u64,
    pub operation: LifecycleOperation,
    pub agent_id: u64,
    pub target_id: Option<u64>,
    pub success: bool,
    pub error: Option<LifecycleError>,
}

/// What a spawned agent is made from.
pub struct SpawnSpec {
    pub id: u64,
    pub capabilities: Vec<u8>,
    pub memory_limit: u64,
    pub cpu_limit: u32,
}

/// A spawn specification as plain values.
pub open spec fn spawn_view(s: SpawnSpec) -> (u64, Seq<u8>, u64, u32) {
    (s.id, s.capabilities@, s.memory_limit, s.cpu_limit)
}

/// The specification of agent `agent` from spawn metadata laid out as
/// eight capability bytes, a little-endian 64-bit memory limit and a
/// little-endian 32-bit CPU limit; defaults when it is shorter.
pub open spec fn spawn_spec(agent: u64, metadata: Seq<u8>) -> (u64, Seq<u8>, u64, u32) {
    if metadata.len() >= 20 {
        (
            agent,
            metadata.subrange(0, 8),
            u64_of_le(metadata.subrange(8, 16)),
            u32_of_le(metadata.subrange(16, 20)),
        )
    } else {
        (agent, Seq::empty(), DEFAULT_MEMORY_LIMIT, DEFAULT_CPU_LIMIT)
    }
}

/// The identifier a clone of `agent` gets: `target` when given, else one
/// made from the time and the agent.
pub open spec fn clone_target(agent: u64, target: Option<u64>, now: u64) -> u64 {
    match target {
        Some(t) => t,
        None => (now ^ agent.wrapping_mul(CLONE_ID_MULTIPLIER)) & AGENT_ID_MASK,
    }
}

/// The capabilities an upgrade asks for: the first eight metadata bytes,
/// little-endian, when there is metadata.
pub open spec fn upgrade_request(metadata: Seq<u8>) -> Option<u64> {
    if metadata.len() == 0 {
        None
    } else {
        Some(u64_of_le(metadata))
    }
}

/// The event that announces a lifecycle step of `agent`.
pub open spec fn lifecycle_event(agent: u64, now: u64, data: Seq<u8>) -> (
    EventType,
    u64,
    Option<u64>,
    Seq<u8>,
) {
    (EventType::AgentLifecycle, now, Some(agent), data)
}

/// Whether region `next_region()` of `size` bytes collides with none.
pub open spec fn region_fits(f: MemoryFabricManager, size: u64) -> bool {
    !overlaps_any(f.regions(), region_start(f.next_region()) as u64, size)
}

/// The fabric `f1` after a merge into `target` on `f0`: a merge buffer is
/// created for `target` if it fits, then `agent`'s ephemeral regions and
/// expired leases go.
pub open spec fn merged_fabric(
    f0: MemoryFabricManager,
    f1: MemoryFabricManager,
    target: u64,
    agent: u64,
    now: u64,
) -> bool {
    let id = f0.next_region();
    let regions = if region_fits(f0, MERGE_REGION_SIZE) {
        f0.regions().push(
            MemoryRegion {
                region_id: id,
                agent_id: target,
                region_type: MemoryRegionType::Ephemeral,
                start: region_start(id) as u64,
                size: MERGE_REGION_SIZE,
            },
        )
    } else {
        f0.regions()
    };
    &&& f1.regions() == without_ephemeral(regions, agent)
    &&& f1.leases() == leases_without_expired(f0.leases(), agent, now)
    &&& f1.tags() == f0.tags()
    &&& f1.pages() == f0.pages()
    &&& f1.wf() == f0.wf()
    &&& f1.next_region() == id.wrapping_add(1)
    &&& f1.next_page() == f0.next_page()
    &&& f1.next_lease() == f0.next_lease()
}

/// The fabric `f1` after a kill of `agent` on `f0`: its ephemeral regions
/// and expired leases are dropped, twice over.
pub open spec fn killed_fabric(f0: MemoryFabricManager, f1: MemoryFabricManager, agent: u64, now: u64) -> bool {
    &&& f1.regions() == without_ephemeral(without_ephemeral(f0.regions(), agent), agent)
    &&& f1.leases() == leases_without_expired(
        leases_without_expired(f0.leases(), agent, now),
        agent,
        now,
    )
    &&& f1.tags() == f0.tags()
    &&& f1.pages() == f0.pages()
    &&& f1.wf() == f0.wf()
    &&& f1.next_region() == f0.next_region()
    &&& f1.next_page() == f0.next_page()
    &&& f1.next_lease() == f0.next_lease()
}

/// What the lifecycle operations work on.
pub struct LifecycleEnv {
    pub pool: Option<AgentMemoryPool>,
    pub frames: BitmapFrameAllocator,
    pub paging: PagingState,
    pub fabric: Option<MemoryFabricManager>,
    pub events: Option<KernelEventSystem>,
}

/// What an operation came to: its result, the page mappings to install
/// (those of memory given to a spawned agent), the agent to register after
/// a spawn, and the capabilities an upgrade asks for.
pub struct LifecycleOutcome {
    pub result: Result<u64, LifecycleError>,
    pub mappings: Vec<MapRequest>,
    pub spawned: Option<SpawnSpec>,
    pub upgraded_capabilities: Option<u64>,
}

/// What an operation needs of its environment: frames, room in the pool
/// for a spawn's memory, room in the fabric for a region, a split's
/// identifier that fits, and an upgrade's capabilities in full.
pub open spec fn env_ready(e: LifecycleEnv, op: LifecycleOperation, agent: u64, metadata: Seq<u8>) -> bool {
    &&& e.frames.wf()
    &&& e.pool matches Some(p) ==> p.wf() && p.next_addr() + pages_for(SPAWN_MEMORY as int) * 4096
        < CANONICAL_LIMIT
    &&& e.fabric matches Some(f) ==> room_for(f, MERGE_REGION_SIZE)
    &&& op == LifecycleOperation::Split ==> agent + SPLIT_ID_OFFSET <= u64::MAX
    &&& op == LifecycleOperation::Upgrade && metadata.len() > 0 ==> metadata.len() >= 8
}

/// The outcome of an operation that creates a region of `size` bytes for
/// agent `id` and then announces `id`: it fails when the region collides.
pub open spec fn region_step(
    e0: LifecycleEnv,
    e1: LifecycleEnv,
    id: u64,
    size: u64,
    now: u64,
    result: Result<u64, LifecycleError>,
) -> bool {
    match e0.fabric {
        None => {
            &&& e1.fabric is None
            &&& result == Ok::<u64, LifecycleError>(id)
            &&& published(e0.events, e1.events, seq![lifecycle_event(id, now, Seq::empty())])
        },
        Some(f) => {
            &&& e1.fabric is Some
            &&& if region_fits(f, size) {
                &&& created(
                    f,
                    e1.fabric->0,
                    id,
                    MemoryRegionType::Ephemeral,
                    size,
                    Ok(f.next_region()),
                )
                &&& result == Ok::<u64, LifecycleError>(id)
                &&& published(
                    e0.events,
                    e1.events,
                    region_notice(id, now, true) + seq![lifecycle_event(id, now, Seq::empty())],
                )
            } else {
                &&& created(
                    f,
                    e1.fabric->0,
                    id,
                    MemoryRegionType::Ephemeral,
                    size,
                    Err(MemoryFabricError::OutOfMemory),
                )
                &&& result == Err::<u64, LifecycleError>(LifecycleError::ResourceExhausted)
                &&& published(e0.events, e1.events, Seq::empty())
            }
        },
    }
}

/// What operation `op` of `agent` does, once its hooks have passed:
/// `e0` before, `e1` after, `out` its outcome.
pub open spec fn performed(
    op: LifecycleOperation,
    agent: u64,
    target: Option<u64>,
    metadata: Seq<u8>,
    e0: LifecycleEnv,
    e1: LifecycleEnv,
    now: u64,
    out: LifecycleOutcome,
) -> bool {
    let announce = seq![lifecycle_event(agent, now, Seq::empty())];
    &&& e1.paging == e0.paging
    &&& op != LifecycleOperation::Spawn ==> {
        &&& e1.pool == e0.pool
        &&& e1.frames == e0.frames
        &&& out.mappings@.len() == 0
        &&& out.spawned is None
    }
    &&& op != LifecycleOperation::Upgrade ==> out.upgraded_capabilities is None
    &&& match op {
        LifecycleOperation::Spawn => {
            &&& e1.fabric == e0.fabric
            &&& match e0.pool {
                None => {
                    &&& e1.pool is None
                    &&& e1.frames == e0.frames
                    &&& e1.events == e0.events
                    &&& out.result == Err::<u64, LifecycleError>(LifecycleError::ResourceExhausted)
                    &&& out.mappings@.len() == 0
                    &&& out.spawned is None
                },
                Some(p) => {
                    &&& e1.pool is Some
                    &&& if out.result is Ok {
                        &&& out.result == Ok::<u64, LifecycleError>(agent)
                        &&& allocated(
                            p,
                            e1.pool->0,
                            e0.frames,
                            e1.frames,
                            agent,
                            SPAWN_MEMORY,
                            e0.paging,
                            Some(p.next_addr()),
                            out.mappings@,
                        )
                        &&& out.spawned is Some
                        &&& spawn_view(out.spawned->0) == spawn_spec(agent, metadata)
                        &&& published(
                            e0.events,
                            e1.events,
                            page_notices(agent, now, pages_mapped(e0.frames, SPAWN_MEMORY, e0.paging))
                                + announce,
                        )
                    } else {
                        &&& out.result == Err::<u64, LifecycleError>(
                            LifecycleError::ResourceExhausted,
                        )
                        &&& allocated(
                            p,
                            e1.pool->0,
                            e0.frames,
                            e1.frames,
                            agent,
                            SPAWN_MEMORY,
                            e0.paging,
                            None,
                            out.mappings@,
                        )
                        &&& out.spawned is None
                        &&& published(
                            e0.events,
                            e1.events,
                            page_notices(agent, now, pages_mapped(e0.frames, SPAWN_MEMORY, e0.paging)),
                        )
                    }
                },
            }
        },
        LifecycleOperation::Clone => region_step(
            e0,
            e1,
            clone_target(agent, target, now),
            CLONE_REGION_SIZE,
            now,
            out.result,
        ),
        LifecycleOperation::Merge => match target {
            None => {
                &&& out.result == Err::<u64, LifecycleError>(LifecycleError::InvalidOperation)
                &&& e1.fabric == e0.fabric
                &&& e1.events == e0.events
            },
            Some(t) => {
                &&& out.result == Ok::<u64, LifecycleError>(t)
                &&& e1.fabric is Some == e0.fabric is Some
                &&& e0.fabric matches Some(f) ==> merged_fabric(f, e1.fabric->0, t, agent, now)
                &&& published(
                    e0.events,
                    e1.events,
                    region_notice(
                        t,
                        now,
                        e0.fabric matches Some(f) && region_fits(f, MERGE_REGION_SIZE),
                    ) + seq![lifecycle_event(t, now, Seq::empty())],
                )
            },
        },
        LifecycleOperation::Split => region_step(
            e0,
            e1,
            (agent + SPLIT_ID_OFFSET) as u64,
            SPLIT_REGION_SIZE,
            now,
            out.result,
        ),
        LifecycleOperation::Upgrade => {
            &&& out.result == Ok::<u64, LifecycleError>(agent)
            &&& out.upgraded_capabilities == upgrade_request(metadata)
            &&& e1.fabric == e0.fabric
            &&& published(e0.events, e1.events, announce)
        },
        LifecycleOperation::Specialize => {
            &&& out.result == Ok::<u64, LifecycleError>(agent)
            &&& e1.fabric == e0.fabric
            &&& published(
                e0.events,
                e1.events,
                if metadata.len() > 0 {
                    seq![lifecycle_event(agent, now, metadata)] + announce
                } else {
                    announce
                },
            )
        },
        LifecycleOperation::Kill => {
            &&& out.result == Ok::<u64, LifecycleError>(agent)
            &&& e1.fabric is Some == e0.fabric is Some
            &&& e0.fabric matches Some(f) ==> killed_fabric(f, e1.fabric->0, agent, now)
            &&& published(e0.events, e1.events, announce)
        },
    }
}

/// The audit entry of an attempt that came to `result`.
pub open spec fn audit_record(
    now: u64,
    op: LifecycleOperation,
    agent: u64,
    target: Option<u64>,
    result: Result<u64, LifecycleError>,
) -> LifecycleAuditEntry {
    LifecycleAuditEntry {
        timestamp: now,
        operation: op,
        agent_id: agent,
        target_id: target,
        success: result is Ok,
        error: match result {
            Ok(_) => None,
            Err(e) => Some(e),
        },
    }
}

/// Whether `hooks` are in order of priority.
pub open spec fn by_priority(hooks: Seq<LifecycleHook>) -> bool {
    forall|i: int, j: int| 0 <= i <= j < hooks.len() ==> (#[trigger] hooks[i]).priority <= (#[trigger] hooks[j]).priority
}

/// Reads the spawn specification of `agent_id` from `metadata`; see
/// [`spawn_spec`].
pub fn parse_spawn_spec(agent_id: u64, metadata: &Vec<u8>) -> (s: SpawnSpec)
    ensures
        spawn_view(s) == spawn_spec(agent_id, metadata@),
{
    if metadata.len() >= 20 {
        let bytes = metadata.as_slice();
        let capabilities = slice_to_vec(slice_subrange(bytes, 0, 8));
        let memory_limit = match deserialize_u64(slice_subrange(bytes, 8, 16)) {
            Some(v) => v,
            None => DEFAULT_MEMORY_LIMIT,
        };
        let cpu_limit = match deserialize_u32(slice_subrange(bytes, 16, 20)) {
            Some(v) => v,
            None => DEFAULT_CPU_LIMIT,
        };
        SpawnSpec { id: agent_id, capabilities, memory_limit, cpu_limit }
    } else {
        SpawnSpec {
            id: agent_id,
            capabilities: Vec::new(),
            memory_limit: DEFAULT_MEMORY_LIMIT,
            cpu_limit: DEFAULT_CPU_LIMIT,
        }
    }
}

/// The identifier a clone of `agent_id` gets; see [`clone_target`].
pub fn clone_target_id(agent_id: u64, target_id: Option<u64>, now: u64) -> (id: u64)
    ensures
        id == clone_target(agent_id, target_id, now),
{
    match target_id {
        Some(t) => t,
        None => (now ^ agent_id.wrapping_mul(CLONE_ID_MULTIPLIER)) & AGENT_ID_MASK,
    }
}

fn announce(events: &mut Option<KernelEventSystem>, agent_id: u64, now: u64, data: Vec<u8>)
    ensures
        published(*old(events), *final(events), seq![lifecycle_event(agent_id, now, data@)]),
{
    publish_event(
        events,
        KernelEvent { event_type: EventType::AgentLifecycle, timestamp: now, agent_id: Some(agent_id), data },
    );
}

/// The lifecycle manager: hooks by priority and the audit trail.
pub struct AgentLifecycleManager {
    hooks: Vec<LifecycleHook>,
    audit_log: Vec<LifecycleAuditEntry>,
}

impl AgentLifecycleManager {
    /// The hooks, in the order they run.
    pub closed spec fn hooks(&self) -> Seq<LifecycleHook> {
        self.hooks@
    }

    /// The audit trail, oldest first.
    pub closed spec fn audit_log(&self) -> Seq<LifecycleAuditEntry> {
        self.audit_log@
    }

    /// Hooks stay in order of priority.
    pub closed spec fn wf(&self) -> bool {
        by_priority(self.hooks@)
    }

    pub fn new() -> (m: Self)
        ensures
            m.wf(),
            m.hooks() == Seq::<LifecycleHook>::empty(),
            m.audit_log() == Seq::<LifecycleAuditEntry>::empty(),
    {
        AgentLifecycleManager { hooks: Vec::new(), audit_log: Vec::new() }
    }

    /// Adds `hook` after every hook of the same or a lower priority and
    /// before every hook of a higher one.
    pub fn register_hook(&mut self, hook: LifecycleHook)
        requires
            old(self).wf(),
        ensures
            final(self).wf(),
            final(self).audit_log() == old(self).audit_log(),
            exists|pos: int|
                #![trigger old(self).hooks().insert(pos, hook)]
                0 <= pos <= old(self).hooks().len() && (forall|i: int|
                    0 <= i < pos ==> (#[trigger] old(self).hooks()[i]).priority <= hook.priority)
                    && (forall|i: int|
                    pos <= i < old(self).hooks().len() ==> (#[trigger] old(self).hooks()[i]).priority
                        > hook.priority) && final(self).hooks() == old(self).hooks().insert(
                    pos,
                    hook,
                ),
    {
        let mut pos: usize = 0;
        while pos < self.hooks.len()
            invariant_except_break
                pos <= self.hooks@.len(),
                forall|i: int| 0 <= i < pos ==> (#[trigger] self.hooks@[i]).priority <= hook.priority,
            invariant
                by_priority(self.hooks@),
                self.hooks@ == old(self).hooks@,
            ensures
                pos <= self.hooks@.len(),
                forall|i: int| 0 <= i < pos ==> (#[trigger] self.hooks@[i]).priority <= hook.priority,
                forall|i: int|
                    pos <= i < self.hooks@.len() ==> (#[trigger] self.hooks@[i]).priority > hook.priority,
            decreases self.hooks.len() - pos,
        {
            if self.hooks[pos].priority > hook.priority {
                break;
            }
            pos = pos + 1;
        }
        let ghost before = self.hooks@;
        self.hooks.insert(pos, hook);
        proof {
            assert(self.hooks@ =~= before.insert(pos as int, hook));
            assert(self.hooks() == old(self).hooks().insert(pos as int, hook));
            assert forall|i: int, j: int| 0 <= i <= j < self.hooks@.len() implies (
            #[trigger] self.hooks@[i]).priority <= (#[trigger] self.hooks@[j]).priority by {
                if i < pos && j > pos {
                    assert(self.hooks@[j] == before[j - 1]);
                } else if i > pos {
                    assert(self.hooks@[i] == before[i - 1]);
                    assert(self.hooks@[j] == before[j - 1]);
                }
            }
        }
    }

    /// The callbacks of the hooks on `operation`, in the order they run.
    pub fn hooks_for(&self, operation: LifecycleOperation) -> (r: Vec<u64>)
        ensures
            r@ == self.hooks().filter(|h: LifecycleHook| h.hook_type == operation).map_values(
                |h: LifecycleHook| h.callback,
            ),
    {
        let mut r: Vec<u64> = Vec::new();
        let mut i: usize = 0;
        while i < self.hooks.len()
            invariant
                i <= self.hooks@.len(),
                r@ == self.hooks@.subrange(0, i as int).filter(
                    |h: LifecycleHook| h.hook_type == operation,
                ).map_values(|h: LifecycleHook| h.callback),
            decreases self.hooks.len() - i,
        {
            proof {
                let sub = self.hooks@.subrange(0, i as int + 1);
                assert(sub.drop_last() =~= self.hooks@.subrange(0, i as int));
                reveal(Seq::filter);
            }
            let h = self.hooks[i];
            if h.hook_type == operation {
                r.push(h.callback);
            }
            proof {
                assert(r@ =~= self.hooks@.subrange(0, i as int + 1).filter(
                    |h: LifecycleHook| h.hook_type == operation,
                ).map_values(|h: LifecycleHook| h.callback));
            }
            i = i + 1;
        }
        proof {
            assert(self.hooks@.subrange(0, self.hooks@.len() as int) =~= self.hooks@);
        }
        r
    }

    /// Runs the hooks on `context`'s operation in order through `call`,
    /// which is given each hook's callback, the agent and the context;
    /// stops at the first that fails and returns its error.
    pub fn run_hooks<F: Fn(u64, u64, &LifecycleContext) -> Result<(), LifecycleError>>(
        &self,
        context: &LifecycleContext,
        call: &F,
    ) -> (r: Result<(), LifecycleError>)
        requires
            forall|cb: u64, a: u64, c: &LifecycleContext| call_requires(*call, (cb, a, c)),
        ensures
            r is Ok ==> forall|i: int|
                0 <= i < self.hooks().len() && (#[trigger] self.hooks()[i]).hook_type
                    == context.operation ==> exists|o: Result<(), LifecycleError>|
                    #![trigger call_ensures(*call, (self.hooks()[i].callback, context.agent_id, context), o)]
                    o is Ok && call_ensures(
                        *call,
                        (self.hooks()[i].callback, context.agent_id, context),
                        o,
                    ),
            r matches Err(e) ==> exists|i: int|
                0 <= i < self.hooks().len() && (#[trigger] self.hooks()[i]).hook_type
                    == context.operation && call_ensures(
                    *call,
                    (self.hooks()[i].callback, context.agent_id, context),
                    Err(e),
                ) && forall|j: int|
                    0 <= j < i && (#[trigger] self.hooks()[j]).hook_type == context.operation
                        ==> exists|o: Result<(), LifecycleError>|
                        #![trigger call_ensures(*call, (self.hooks()[j].callback, context.agent_id, context), o)]
                        o is Ok && call_ensures(
                            *call,
                            (self.hooks()[j].callback, context.agent_id, context),
                            o,
                        ),
    {
        let mut i: usize = 0;
        while i < self.hooks.len()
            invariant
                i <= self.hooks@.len(),
                forall|cb: u64, a: u64, c: &LifecycleContext| call_requires(*call, (cb, a, c)),
                forall|j: int|
                    0 <= j < i && (#[trigger] self.hooks@[j]).hook_type == context.operation
                        ==> exists|o: Result<(), LifecycleError>|
                        #![trigger call_ensures(*call, (self.hooks@[j].callback, context.agent_id, context), o)]
                        o is Ok && call_ensures(
                            *call,
                            (self.hooks@[j].callback, context.agent_id, context),
                            o,
                        ),
            decreases self.hooks.len() - i,
        {
            let h = self.hooks[i];
            if h.hook_type == context.operation {
                let res = call(h.callback, context.agent_id, context);
                assert(h == self.hooks@[i as int]);
                match res {
                    Err(e) => {
                        return Err(e);
                    },
                    Ok(()) => {},
                }
            }
            i = i + 1;
        }
        Ok(())
    }

    fn audit(
        &mut self,
        operation: LifecycleOperation,
        agent_id: u64,
        target_id: Option<u64>,
        result: &Result<u64, LifecycleError>,
        now: u64,
    )
        ensures
            final(self).hooks() == old(self).hooks(),
            final(self).audit_log() == old(self).audit_log().push(
                audit_record(now, operation, agent_id, target_id, *result),
            ),
    {
        let error = match result {
            Ok(_) => None,
            Err(e) => Some(*e),
        };
        self.audit_log.push(
            LifecycleAuditEntry {
                timestamp: now,
                operation,
                agent_id,
                target_id,
                success: result.is_ok(),
                error,
            },
        );
    }

    /// Carries out `operation` on `agent_id` at `now`, given the verdict of
    /// its hooks, and records the attempt: a failed hook stops it with the
    /// hook's error; otherwise see [`performed`].
    pub fn execute(
        &mut self,
        operation: LifecycleOperation,
        agent_id: u64,
        target_id: Option<u64>,
        metadata: Vec<u8>,
        hooks: Result<(), LifecycleError>,
        env: &mut LifecycleEnv,
        now: u64,
    ) -> (out: LifecycleOutcome)
        requires
            env_ready(*old(env), operation, agent_id, metadata@),
        ensures
            final(self).hooks() == old(self).hooks(),
            final(self).wf() == old(self).wf(),
            final(self).audit_log() == old(self).audit_log().push(
                audit_record(now, operation, agent_id, target_id, out.result),
            ),
            match hooks {
                Err(e) => {
                    &&& out.result == Err::<u64, LifecycleError>(e)
                    &&& *final(env) == *old(env)
                    &&& out.mappings@.len() == 0
                    &&& out.spawned is None
                    &&& out.upgraded_capabilities is None
                },
                Ok(_) => performed(
                    operation,
                    agent_id,
                    target_id,
                    metadata@,
                    *old(env),
                    *final(env),
                    now,
                    out,
                ),
            },
    {
        if let Err(e) = hooks {
            let result: Result<u64, LifecycleError> = Err(e);
            self.audit(operation, agent_id, target_id, &result, now);
            return LifecycleOutcome {
                result,
                mappings: Vec::new(),
                spawned: None,
                upgraded_capabilities: None,
            };
        }
        let out = match operation {
            LifecycleOperation::Spawn => self.spawn(agent_id, &metadata, env, now),
            LifecycleOperation::Clone => {
                let id = clone_target_id(agent_id, target_id, now);
                Self::region_for(id, CLONE_REGION_SIZE, env, now)
            },
            LifecycleOperation::Merge => Self::merge(agent_id, target_id, env, now),
            LifecycleOperation::Split => Self::region_for(
                agent_id + SPLIT_ID_OFFSET,
                SPLIT_REGION_SIZE,
                env,
                now,
            ),
            LifecycleOperation::Upgrade => {
                let caps = if metadata.len() > 0 {
                    deserialize_u64(metadata.as_slice())
                } else {
                    None
                };
                announce(&mut env.events, agent_id, now, Vec::new());
                LifecycleOutcome {
                    result: Ok(agent_id),
                    mappings: Vec::new(),
                    spawned: None,
                    upgraded_capabilities: caps,
                }
            },
            LifecycleOperation::Specialize => {
                let ghost e0 = env.events;
                if metadata.len() > 0 {
                    let data = slice_to_vec(metadata.as_slice());
                    announce(&mut env.events, agent_id, now, data);
                }
                let ghost e1 = env.events;
                announce(&mut env.events, agent_id, now, Vec::new());
                proof {
                    if metadata@.len() > 0 {
                        crate::events::lemma_published_chain(
                            e0,
                            e1,
                            env.events,
                            seq![lifecycle_event(agent_id, now, metadata@)],
                            seq![lifecycle_event(agent_id, now, Seq::empty())],
                        );
                    }
                }
                LifecycleOutcome {
                    result: Ok(agent_id),
                    mappings: Vec::new(),
                    spawned: None,
                    upgraded_capabilities: None,
                }
            },
            LifecycleOperation::Kill => {
                if let Some(f) = &mut env.fabric {
                    f.cleanup_agent_regions(agent_id, now);
                    f.cleanup_agent_regions(agent_id, now);
                }
                announce(&mut env.events, agent_id, now, Vec::new());
                LifecycleOutcome {
                    result: Ok(agent_id),
                    mappings: Vec::new(),
                    spawned: None,
                    upgraded_capabilities: None,
                }
            },
        };
        self.audit(operation, agent_id, target_id, &out.result, now);
        out
    }

    fn spawn(&self, agent_id: u64, metadata: &Vec<u8>, env: &mut LifecycleEnv, now: u64) -> (out:
        LifecycleOutcome)
        requires
            env_ready(*old(env), LifecycleOperation::Spawn, agent_id, metadata@),
        ensures
            performed(
                LifecycleOperation::Spawn,
                agent_id,
                None,
                metadata@,
                *old(env),
                *final(env),
                now,
                out,
            ),
    {
        let (addr, mappings) = crate::agent_pool::allocate_agent_memory(
            &mut env.pool,
            agent_id,
            SPAWN_MEMORY,
            &mut env.frames,
            env.paging,
            &mut env.events,
            now,
        );
        let ghost e_mid = env.events;
        if addr.is_none() {
            return LifecycleOutcome {
                result: Err(LifecycleError::ResourceExhausted),
                mappings,
                spawned: None,
                upgraded_capabilities: None,
            };
        }
        let spec = parse_spawn_spec(agent_id, metadata);
        announce(&mut env.events, agent_id, now, Vec::new());
        proof {
            if old(env).pool is Some {
                lemma_published_chain(
                    old(env).events,
                    e_mid,
                    env.events,
                    page_notices(agent_id, now, pages_mapped(old(env).frames, SPAWN_MEMORY, old(env).paging)),
                    seq![lifecycle_event(agent_id, now, Seq::empty())],
                );
            }
        }
        LifecycleOutcome { result: Ok(agent_id), mappings, spawned: Some(spec), upgraded_capabilities: None }
    }

    fn region_for(id: u64, size: u64, env: &mut LifecycleEnv, now: u64) -> (out: LifecycleOutcome)
        requires
            size <= MERGE_REGION_SIZE,
            old(env).fabric matches Some(f) ==> room_for(f, MERGE_REGION_SIZE),
        ensures
            final(env).pool == old(env).pool,
            final(env).frames == old(env).frames,
            final(env).paging == old(env).paging,
            out.mappings@.len() == 0,
            out.spawned is None,
            out.upgraded_capabilities is None,
            region_step(*old(env), *final(env), id, size, now, out.result),
    {
        let ghost e0 = env.events;
        let mut failed = false;
        let mut noticed = false;
        if let Some(f) = &mut env.fabric {
            match f.create_region(id, MemoryRegionType::Ephemeral, size, &mut env.events, now) {
                Ok(_) => {
                    noticed = true;
                },
                Err(_) => {
                    failed = true;
                },
            }
        } else {
            proof {
                lemma_published_nothing(env.events);
            }
        }
        let ghost e_mid = env.events;
        let result = if failed {
            Err(LifecycleError::ResourceExhausted)
        } else {
            announce(&mut env.events, id, now, Vec::new());
            proof {
                lemma_published_chain(
                    e0,
                    e_mid,
                    env.events,
                    region_notice(id, now, noticed),
                    seq![lifecycle_event(id, now, Seq::empty())],
                );
                if !noticed {
                    assert(region_notice(id, now, noticed) + seq![lifecycle_event(id, now, Seq::empty())]
                        =~= seq![lifecycle_event(id, now, Seq::empty())]);
                }
            }
            Ok(id)
        };
        LifecycleOutcome { result, mappings: Vec::new(), spawned: None, upgraded_capabilities: None }
    }

    fn merge(agent_id: u64, target_id: Option<u64>, env: &mut LifecycleEnv, now: u64) -> (out:
        LifecycleOutcome)
        requires
            old(env).fabric matches Some(f) ==> room_for(f, MERGE_REGION_SIZE),
        ensures
            performed(
                LifecycleOperation::Merge,
                agent_id,
                target_id,
                Seq::empty(),
                *old(env),
                *final(env),
                now,
                out,
            ),
    {
        let target = match target_id {
            None => {
                return LifecycleOutcome {
                    result: Err(LifecycleError::InvalidOperation),
                    mappings: Vec::new(),
                    spawned: None,
                    upgraded_capabilities: None,
                };
            },
            Some(t) => t,
        };
        let ghost e0 = env.events;
        let mut noticed = false;
        if let Some(f) = &mut env.fabric {
            let merge_region = f.create_region(
                target,
                MemoryRegionType::Ephemeral,
                MERGE_REGION_SIZE,
                &mut env.events,
                now,
            );
            noticed = merge_region.is_ok();
            f.cleanup_agent_regions(agent_id, now);
        } else {
            proof {
                lemma_published_nothing(env.events);
            }
        }
        let ghost e_mid = env.events;
        announce(&mut env.events, target, now, Vec::new());
        proof {
            lemma_published_chain(
                e0,
                e_mid,
                env.events,
                region_notice(target, now, noticed),
                seq![lifecycle_event(target, now, Seq::empty())],
            );
        }
        LifecycleOutcome {
            result: Ok(target),
            mappings: Vec::new(),
            spawned: None,
            upgraded_capabilities: None,
        }
    }
}

} // verus!
