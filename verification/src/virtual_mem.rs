//! Virtual memory decisions: page-fault classification, demand paging and
//! copy-on-write, with fault statistics and copy-on-write reference counts.
//!
//! Page tables and frames live in hardware, so a fault is handled as a
//! conversation: [`PageTableManager::begin_page_fault`] classifies the fault
//! and names the first action, the caller performs it and reports the
//! outcome to [`PageTableManager::step`], which names the next action, until
//! the action is [`FaultAction::Finish`].

use vstd::prelude::*;
use std::collections::BTreeMap;
use crate::agent_mapping::{AgentMemoryMapping, owner_of};
use crate::physical::{cleared, probe_from, BitmapFrameAllocator, FRAME_SIZE};
use crate::events::{
    EventType, KernelEvent, KernelEventSystem, event_view, lemma_published_chain, lemma_published_nothing, published,
    publish_event,
};

verus! {

broadcast use vstd::std_specs::btree::group_btree_axioms;

/// Page-table entry flag: the page is present.
pub const PRESENT: u64 = 1;

/// Page-table entry flag: the page is writable.
pub const WRITABLE: u64 = 2;

/// Page-table entry flag: user code may access the page.
pub const USER_ACCESSIBLE: u64 = 4;

/// Page-fault error code bit: the page was present (protection violation).
pub const PF_PROTECTION_VIOLATION: u64 = 1;

/// Page-fault error code bit: the access was a write.
pub const PF_CAUSED_BY_WRITE: u64 = 2;

/// Page-fault error code bit: the access came from user mode.
pub const PF_USER_MODE: u64 = 4;

/// Page-fault error code bit: the access was an instruction fetch.
pub const PF_INSTRUCTION_FETCH: u64 = 16;

/// Why mapping a page failed.
#[derive(Clone, Copy, PartialEq, Eq, Structural, Debug)]
pub enum MapError {
    NotInitialized,
    NoPageTable,
    NoFrameAllocator,
    MappingFailed,
    PermissionDenied,
}

/// Why unmapping a page failed.
#[derive(Clone, Copy, PartialEq, Eq, Structural, Debug)]
pub enum UnmapError {
    NotInitialized,
    NoPageTable,
    UnmappingFailed,
}

/// Why a page fault could not be resolved.
#[derive(Clone, Copy, PartialEq, Eq, Structural, Debug)]
pub enum PageFaultError {
    OutOfMemory,
    MappingFailed,
    KernelProtectionViolation,
    InstructionFetchViolation,
    ReadViolation,
    CowFailed,
}

/// Why a page-table operation failed.
#[derive(Clone, Copy, PartialEq, Eq, Structural, Debug)]
pub enum PageTableError {
    NotInitialized,
    OutOfMemory,
    InvalidAgent,
}

/// What the paging hardware layer has in place.
#[derive(Clone, Copy, Debug)]
pub struct PagingState {
    pub initialized: bool,
    pub has_table: bool,
    pub has_frame_allocator: bool,
}

/// A mapping to install: page start, frame start and flags.
#[derive(Clone, Copy, PartialEq, Eq, Structural, Debug)]
pub struct MapRequest {
    pub page: u64,
    pub frame: u64,
    pub flags: u64,
}

/// The start of the 4 KiB page or frame that contains `addr`.
pub open spec fn page_base(addr: u64) -> u64 {
    addr & !0xFFFu64
}

/// Calls `x86_64::align_down`, which asserts that `align` is a power of
/// two and returns `addr` with the bits below `align` cleared.
#[verifier::external_body]
fn align_down(addr: u64, align: u64) -> (r: u64)
    requires
        align > 0,
        align & (align - 1) as u64 == 0,
    ensures
        r == addr & !((align - 1) as u64),
{
    x86_64::align_down(addr, align)
}

/// The start of the 4 KiB page or frame that contains `addr`.
pub fn containing_page(addr: u64) -> (r: u64)
    ensures
        r == page_base(addr),
{
    assert(4096u64 & 4095u64 == 0) by (bit_vector);
    align_down(addr, 4096)
}

/// The result of deciding a mapping: refused without a validated
/// capability, then each missing piece of the paging layer is reported;
/// otherwise the mapping of the page of `virtual_addr` to the frame of
/// `physical_addr`.
pub open spec fn map_decision(
    virtual_addr: u64,
    physical_addr: u64,
    flags: u64,
    capability_validated: bool,
    paging: PagingState,
) -> Result<MapRequest, MapError> {
    if !capability_validated {
        Err(MapError::PermissionDenied)
    } else if !paging.initialized {
        Err(MapError::NotInitialized)
    } else if !paging.has_table {
        Err(MapError::NoPageTable)
    } else if !paging.has_frame_allocator {
        Err(MapError::NoFrameAllocator)
    } else {
        Ok(MapRequest { page: page_base(virtual_addr), frame: page_base(physical_addr), flags })
    }
}

/// The events a mapping decision for `agent_id` at `now` publishes: a
/// [`EventType::Security`] event when the capability was not validated, a
/// [`EventType::Memory`] and then a [`EventType::VirtualMemory`] event when
/// the mapping is made, none when the paging layer is missing a piece.
pub open spec fn map_notice(agent_id: u64, now: u64, r: Result<MapRequest, MapError>) -> Seq<
    (EventType, u64, Option<u64>, Seq<u8>),
> {
    match r {
        Ok(_) => seq![
            (EventType::Memory, now, Some(agent_id), Seq::<u8>::empty()),
            (EventType::VirtualMemory, now, Some(agent_id), Seq::<u8>::empty()),
        ],
        Err(MapError::PermissionDenied) => seq![
            (EventType::Security, now, Some(agent_id), Seq::<u8>::empty()),
        ],
        Err(_) => Seq::empty(),
    }
}

/// Decides a page mapping for `agent_id`, as [`map_decision`] says, and
/// announces it on `events` at `now`, as [`map_notice`] says.
pub fn map_page(
    virtual_addr: u64,
    physical_addr: u64,
    flags: u64,
    agent_id: u64,
    capability_validated: bool,
    paging: PagingState,
    events: &mut Option<KernelEventSystem>,
    now: u64,
) -> (r: Result<MapRequest, MapError>)
    ensures
        r == map_decision(virtual_addr, physical_addr, flags, capability_validated, paging),
        published(*old(events), *final(events), map_notice(agent_id, now, r)),
{
    if !capability_validated {
        announce(events, EventType::Security, agent_id, now);
        return Err(MapError::PermissionDenied);
    }
    if !paging.initialized {
        proof {
            lemma_published_nothing(*events);
        }
        return Err(MapError::NotInitialized);
    }
    if !paging.has_table {
        proof {
            lemma_published_nothing(*events);
        }
        return Err(MapError::NoPageTable);
    }
    if !paging.has_frame_allocator {
        proof {
            lemma_published_nothing(*events);
        }
        return Err(MapError::NoFrameAllocator);
    }
    let req = MapRequest {
        page: containing_page(virtual_addr),
        frame: containing_page(physical_addr),
        flags,
    };
    let ghost e0 = *events;
    announce(events, EventType::Memory, agent_id, now);
    let ghost e1 = *events;
    announce(events, EventType::VirtualMemory, agent_id, now);
    proof {
        lemma_published_chain(
            e0,
            e1,
            *events,
            seq![(EventType::Memory, now, Some(agent_id), Seq::<u8>::empty())],
            seq![(EventType::VirtualMemory, now, Some(agent_id), Seq::<u8>::empty())],
        );
        assert(seq![(EventType::Memory, now, Some(agent_id), Seq::<u8>::empty())] + seq![
            (EventType::VirtualMemory, now, Some(agent_id), Seq::<u8>::empty()),
        ] =~= map_notice(agent_id, now, Ok(req)));
    }
    Ok(req)
}

/// Publishes an event of `event_type` about `agent_id` at `now`, with no
/// data.
fn announce(events: &mut Option<KernelEventSystem>, event_type: EventType, agent_id: u64, now: u64)
    ensures
        published(*old(events), *final(events), seq![(event_type, now, Some(agent_id), Seq::<u8>::empty())]),
{
    let notice = KernelEvent { event_type, timestamp: now, agent_id: Some(agent_id), data: Vec::new() };
    proof {
        assert(seq![event_view(notice)] =~= seq![(event_type, now, Some(agent_id), Seq::<u8>::empty())]);
    }
    publish_event(events, notice);
}

/// Decides an unmapping: the page of `virtual_addr`, or what is missing.
pub fn unmap_page(virtual_addr: u64, paging: PagingState) -> (r: Result<u64, UnmapError>)
    ensures
        r == if !paging.initialized {
            Err(UnmapError::NotInitialized)
        } else if !paging.has_table {
            Err(UnmapError::NoPageTable)
        } else {
            Ok(page_base(virtual_addr))
        },
{
    if !paging.initialized {
        return Err(UnmapError::NotInitialized);
    }
    if !paging.has_table {
        return Err(UnmapError::NoPageTable);
    }
    Ok(containing_page(virtual_addr))
}

/// Where a page fault is in its handling.
#[derive(Clone, Copy, PartialEq, Eq, Structural, Debug)]
pub enum FaultStep {
    /// Demand paging: waiting for a frame.
    DemandFrame { address: u64, flags: u64, agent: u64 },
    /// Demand paging: waiting for the mapping.
    DemandMap { address: u64 },
    /// Demand paging: waiting for the page to be zeroed.
    DemandZero,
    /// Copy-on-write: waiting for the old page to be unmapped.
    CowUnmap { address: u64, agent: u64 },
    /// Copy-on-write of an unmapped page: waiting for a frame.
    CowFreshFrame { address: u64, agent: u64 },
    /// Copy-on-write of an unmapped page: waiting for the mapping.
    CowFreshMap,
    /// Copy-on-write: waiting for the new frame; `free_old` says whether
    /// the old frame goes once the copy is mapped.
    CowNewFrame { address: u64, agent: u64, old: u64, free_old: bool },
    /// Copy-on-write: waiting for the copy into the new frame.
    CowCopy { address: u64, agent: u64, old: u64, new: u64, free_old: bool },
    /// Copy-on-write: waiting for the mapping of the new frame.
    CowMap { old: u64, free_old: bool },
    /// Copy-on-write: waiting for the old frame to be freed.
    CowFreeOld,
    /// Handled.
    Done,
}

/// What the caller is asked to do next.
#[derive(Clone, Copy, Debug)]
pub enum FaultAction {
    /// Allocate a frame and report [`FaultEvent::FrameAllocated`].
    AllocateFrame,
    /// Map the page of `address` to `frame` and report [`FaultEvent::Mapped`].
    MapPage { address: u64, frame: u64, flags: u64, agent: u64 },
    /// Unmap the page of `address` and report [`FaultEvent::Unmapped`].
    Unmap { address: u64 },
    /// Zero 4096 bytes from `address` and report [`FaultEvent::Completed`].
    ZeroPage { address: u64 },
    /// Copy frame `from` into frame `to` and report [`FaultEvent::Completed`].
    CopyFrame { from: u64, to: u64 },
    /// Free `frame` and report [`FaultEvent::Completed`].
    FreeFrame { frame: u64 },
    /// The fault is handled with this outcome.
    Finish { result: Result<(), PageFaultError> },
}

/// What came of the last action.
#[derive(Clone, Copy, Debug)]
pub enum FaultEvent {
    FrameAllocated(Option<u64>),
    Mapped(bool),
    Unmapped(Option<u64>),
    Completed,
}

/// Whether `event` answers the action that `step` waits for.
pub open spec fn event_fits(step: FaultStep, event: FaultEvent) -> bool {
    match step {
        FaultStep::DemandFrame { .. } => event is FrameAllocated,
        FaultStep::DemandMap { .. } => event is Mapped,
        FaultStep::DemandZero => event is Completed,
        FaultStep::CowUnmap { .. } => event is Unmapped,
        FaultStep::CowFreshFrame { .. } => event is FrameAllocated,
        FaultStep::CowFreshMap => event is Mapped,
        FaultStep::CowNewFrame { .. } => event is FrameAllocated,
        FaultStep::CowCopy { .. } => event is Completed,
        FaultStep::CowMap { .. } => event is Mapped,
        FaultStep::CowFreeOld => event is Completed,
        FaultStep::Done => false,
    }
}

/// Flags of a copy-on-write mapping.
pub open spec fn cow_flags() -> u64 {
    PRESENT | WRITABLE | USER_ACCESSIBLE
}

/// Finished with `result`.
pub open spec fn finish(result: Result<(), PageFaultError>) -> (FaultStep, FaultAction) {
    (FaultStep::Done, FaultAction::Finish { result })
}

/// The copy-on-write references after the old frame `old` lost one: an
/// entry that reaches zero is dropped.
pub open spec fn cow_released(cow: Map<u64, usize>, old: u64) -> Map<u64, usize> {
    if cow.contains_key(old) {
        if cow[old] == 1 {
            cow.remove(old)
        } else {
            cow.insert(old, (cow[old] - 1) as usize)
        }
    } else {
        cow
    }
}

/// Whether the old frame `old` of a copy-on-write fault is freed once its
/// copy is mapped, given the references `cow` before the fault: when it is
/// not tracked, or when this fault drops its last reference.
pub open spec fn frees_old(cow: Map<u64, usize>, old: u64) -> bool {
    !cow.contains_key(old) || cow[old] <= 1
}

/// The next step and action after `event` in step `step`, given the
/// copy-on-write references `cow` at that moment. The old frame of a
/// copy-on-write fault is read by the copy first and freed, at most once,
/// after the copy is mapped.
pub open spec fn fault_transition(step: FaultStep, event: FaultEvent, cow: Map<u64, usize>) -> (
    FaultStep,
    FaultAction,
) {
    match (step, event) {
        (FaultStep::DemandFrame { address, flags, agent }, FaultEvent::FrameAllocated(f)) => match f {
            None => finish(Err(PageFaultError::OutOfMemory)),
            Some(frame) => (
                FaultStep::DemandMap { address },
                FaultAction::MapPage { address, frame, flags, agent },
            ),
        },
        (FaultStep::DemandMap { address }, FaultEvent::Mapped(ok)) => if ok {
            (FaultStep::DemandZero, FaultAction::ZeroPage { address })
        } else {
            finish(Err(PageFaultError::MappingFailed))
        },
        (FaultStep::DemandZero, FaultEvent::Completed) => finish(Ok(())),
        (FaultStep::CowUnmap { address, agent }, FaultEvent::Unmapped(u)) => match u {
            None => (FaultStep::CowFreshFrame { address, agent }, FaultAction::AllocateFrame),
            Some(old) => (
                FaultStep::CowNewFrame { address, agent, old, free_old: frees_old(cow, old) },
                FaultAction::AllocateFrame,
            ),
        },
        (FaultStep::CowFreshFrame { address, agent }, FaultEvent::FrameAllocated(f)) => match f {
            None => finish(Err(PageFaultError::OutOfMemory)),
            Some(frame) => (
                FaultStep::CowFreshMap,
                FaultAction::MapPage { address, frame, flags: cow_flags(), agent },
            ),
        },
        (FaultStep::CowFreshMap, FaultEvent::Mapped(ok)) => if ok {
            finish(Ok(()))
        } else {
            finish(Err(PageFaultError::MappingFailed))
        },
        (FaultStep::CowNewFrame { address, agent, old, free_old }, FaultEvent::FrameAllocated(f)) => match f {
            None => finish(Err(PageFaultError::OutOfMemory)),
            Some(new) => (
                FaultStep::CowCopy { address, agent, old, new, free_old },
                FaultAction::CopyFrame { from: old, to: new },
            ),
        },
        (FaultStep::CowCopy { address, agent, old, new, free_old }, FaultEvent::Completed) => (
            FaultStep::CowMap { old, free_old },
            FaultAction::MapPage { address, frame: new, flags: cow_flags(), agent },
        ),
        (FaultStep::CowMap { old, free_old }, FaultEvent::Mapped(ok)) => if !ok {
            finish(Err(PageFaultError::MappingFailed))
        } else if free_old {
            (FaultStep::CowFreeOld, FaultAction::FreeFrame { frame: old })
        } else {
            finish(Ok(()))
        },
        (FaultStep::CowFreeOld, FaultEvent::Completed) => finish(Ok(())),
        _ => finish(Err(PageFaultError::CowFailed)),
    }
}

/// How a fault starts: demand paging for a missing page; for a protection
/// violation in user mode by an agent, a read violation unless the agent
/// owns the address, then an instruction-fetch violation, copy-on-write for
/// a write, or a read violation; any other protection violation is the
/// kernel's own.
pub open spec fn fault_start(
    address: u64,
    error_code: u64,
    agent_id: Option<u64>,
    owner: Option<u64>,
) -> (FaultStep, FaultAction) {
    if error_code & PF_PROTECTION_VIOLATION == 0 {
        (
            FaultStep::DemandFrame {
                address,
                flags: if agent_id is Some {
                    PRESENT | WRITABLE | USER_ACCESSIBLE
                } else {
                    PRESENT | WRITABLE
                },
                agent: match agent_id {
                    Some(a) => a,
                    None => 0,
                },
            },
            FaultAction::AllocateFrame,
        )
    } else if error_code & PF_USER_MODE != 0 && agent_id is Some {
        let a = agent_id->0;
        if owner != Some(a) {
            finish(Err(PageFaultError::ReadViolation))
        } else if error_code & PF_INSTRUCTION_FETCH != 0 {
            finish(Err(PageFaultError::InstructionFetchViolation))
        } else if error_code & PF_CAUSED_BY_WRITE != 0 {
            (FaultStep::CowUnmap { address, agent: a }, FaultAction::Unmap { address })
        } else {
            finish(Err(PageFaultError::ReadViolation))
        }
    } else {
        finish(Err(PageFaultError::KernelProtectionViolation))
    }
}

/// The event a fault with `error_code` for `agent_id` at `now` publishes
/// when it starts: none for a missing page; a [`EventType::VirtualMemory`]
/// event about the agent for a protection violation in user mode by an
/// agent; a [`EventType::Security`] event for any other protection
/// violation, the kernel's own.
pub open spec fn fault_notice(error_code: u64, agent_id: Option<u64>, now: u64) -> Seq<
    (EventType, u64, Option<u64>, Seq<u8>),
> {
    if error_code & PF_PROTECTION_VIOLATION == 0 {
        Seq::empty()
    } else if error_code & PF_USER_MODE != 0 && agent_id is Some {
        seq![(EventType::VirtualMemory, now, agent_id, Seq::<u8>::empty())]
    } else {
        seq![(EventType::Security, now, None, Seq::<u8>::empty())]
    }
}

/// Counters of page faults.
pub struct PageFaultStats {
    pub total_faults: u64,
    pub cow_faults: u64,
    pub protection_violations: u64,
    pub demand_paging: u64,
    pub by_agent: BTreeMap<u64, u64>,
}

/// The fault count of each agent after a fault of `agent_id`.
pub open spec fn counted(by_agent: Map<u64, u64>, agent_id: Option<u64>) -> Map<u64, u64> {
    match agent_id {
        Some(a) => by_agent.insert(
            a,
            if by_agent.contains_key(a) {
                (by_agent[a] + 1) as u64
            } else {
                1
            },
        ),
        None => by_agent,
    }
}

/// The sum of the counts of `m` over the keys in `keys`.
pub open spec fn count_sum(m: Map<u64, u64>, keys: Set<u64>) -> int
    decreases keys.len(),
    when keys.finite()
{
    if keys.len() == 0 {
        0
    } else {
        let k = keys.choose();
        m[k] + count_sum(m, keys.remove(k))
    }
}

/// The sum does not depend on which key is taken first.
proof fn lemma_count_sum_take(m: Map<u64, u64>, keys: Set<u64>, k: u64)
    requires
        keys.finite(),
        keys.contains(k),
    ensures
        count_sum(m, keys) == m[k] + count_sum(m, keys.remove(k)),
    decreases keys.len(),
{
    let c = keys.choose();
    if c != k {
        lemma_count_sum_take(m, keys.remove(c), k);
        lemma_count_sum_take(m, keys.remove(k), c);
        assert(keys.remove(c).remove(k) =~= keys.remove(k).remove(c));
    }
}

/// Counts outside `keys` do not change their sum.
proof fn lemma_count_sum_other(m: Map<u64, u64>, keys: Set<u64>, a: u64, v: u64)
    requires
        keys.finite(),
        !keys.contains(a),
    ensures
        count_sum(m.insert(a, v), keys) == count_sum(m, keys),
    decreases keys.len(),
{
    if keys.len() > 0 {
        let c = keys.choose();
        lemma_count_sum_other(m, keys.remove(c), a, v);
    }
}

/// Counting a fault of `agent_id` adds one to the sum of the per-agent
/// counts when there is an agent, and nothing otherwise.
proof fn lemma_counted_sum(by_agent: Map<u64, u64>, agent_id: Option<u64>)
    requires
        by_agent.dom().finite(),
        agent_id matches Some(a) ==> (by_agent.contains_key(a) ==> by_agent[a] < u64::MAX),
    ensures
        counted(by_agent, agent_id).dom().finite(),
        count_sum(counted(by_agent, agent_id), counted(by_agent, agent_id).dom()) == count_sum(
            by_agent,
            by_agent.dom(),
        ) + if agent_id is Some {
            1int
        } else {
            0int
        },
{
    if let Some(a) = agent_id {
        let m1 = counted(by_agent, agent_id);
        if by_agent.contains_key(a) {
            assert(m1.dom() =~= by_agent.dom());
            lemma_count_sum_take(m1, m1.dom(), a);
            lemma_count_sum_take(by_agent, by_agent.dom(), a);
            lemma_count_sum_other(by_agent, by_agent.dom().remove(a), a, m1[a]);
        } else {
            assert(m1.dom() =~= by_agent.dom().insert(a));
            lemma_count_sum_take(m1, m1.dom(), a);
            assert(m1.dom().remove(a) =~= by_agent.dom());
            lemma_count_sum_other(by_agent, by_agent.dom(), a, 1);
        }
    }
}

/// Page-fault bookkeeping: statistics and copy-on-write references.
pub struct PageTableManager {
    cow_pages: BTreeMap<u64, usize>,
    stats: PageFaultStats,
    agent_tables: BTreeMap<u64, u64>,
}

impl PageTableManager {
    /// The frame of each agent's level-4 page table.
    pub closed spec fn agent_tables(&self) -> Map<u64, u64> {
        self.agent_tables@
    }

    /// Reference count of each copy-on-write frame.
    pub closed spec fn cow(&self) -> Map<u64, usize> {
        self.cow_pages@
    }

    pub closed spec fn total_faults(&self) -> u64 {
        self.stats.total_faults
    }

    pub closed spec fn cow_faults(&self) -> u64 {
        self.stats.cow_faults
    }

    pub closed spec fn protection_violations(&self) -> u64 {
        self.stats.protection_violations
    }

    pub closed spec fn demand_paging(&self) -> u64 {
        self.stats.demand_paging
    }

    /// Fault count of each agent that faulted.
    pub closed spec fn by_agent(&self) -> Map<u64, u64> {
        self.stats.by_agent@
    }

    /// Whether the counters add up: every fault is either a demand-paging
    /// fault or a protection violation, copy-on-write faults are among the
    /// protection violations, and the faults counted per agent are no more
    /// than all faults.
    pub open spec fn counters_add_up(&self) -> bool {
        &&& self.total_faults() == self.demand_paging() + self.protection_violations()
        &&& self.cow_faults() <= self.protection_violations()
        &&& self.by_agent().dom().finite()
        &&& count_sum(self.by_agent(), self.by_agent().dom()) <= self.total_faults()
    }

    /// Whether every counter that a fault of `agent_id` counts can still
    /// be incremented.
    pub open spec fn room_for(&self, agent_id: Option<u64>) -> bool {
        &&& self.total_faults() < u64::MAX
        &&& self.cow_faults() < u64::MAX
        &&& self.protection_violations() < u64::MAX
        &&& self.demand_paging() < u64::MAX
        &&& (agent_id matches Some(a) ==> (self.by_agent().contains_key(a) ==> self.by_agent()[a]
            < u64::MAX))
    }

    /// Whether a fault of `agent_id` can be counted; see [`Self::room_for`].
    pub fn has_room_for(&self, agent_id: Option<u64>) -> (r: bool)
        ensures
            r == self.room_for(agent_id),
    {
        let agent_ok = match agent_id {
            Some(a) => match self.stats.by_agent.get(&a) {
                Some(c) => *c < u64::MAX,
                None => true,
            },
            None => true,
        };
        self.stats.total_faults < u64::MAX && self.stats.cow_faults < u64::MAX
            && self.stats.protection_violations < u64::MAX && self.stats.demand_paging < u64::MAX
            && agent_ok
    }

    /// The manager's invariant: every tracked frame has a reference.
    pub closed spec fn wf(&self) -> bool {
        forall|f: u64| #[trigger] self.cow_pages@.contains_key(f) ==> self.cow_pages@[f] > 0
    }

    pub fn new() -> (m: Self)
        ensures
            m.wf(),
            m.cow() == Map::<u64, usize>::empty(),
            m.total_faults() == 0,
            m.cow_faults() == 0,
            m.protection_violations() == 0,
            m.demand_paging() == 0,
            m.by_agent() == Map::<u64, u64>::empty(),
            m.agent_tables() == Map::<u64, u64>::empty(),
            m.counters_add_up(),
    {
        PageTableManager {
            agent_tables: BTreeMap::new(),
            cow_pages: BTreeMap::new(),
            stats: PageFaultStats {
                total_faults: 0,
                cow_faults: 0,
                protection_violations: 0,
                demand_paging: 0,
                by_agent: BTreeMap::new(),
            },
        }
    }

    /// Marks `phys_addr` as a copy-on-write frame shared `initial_refs` times.
    pub fn mark_cow_page(&mut self, phys_addr: u64, initial_refs: usize)
        requires
            old(self).wf(),
            initial_refs > 0,
        ensures
            final(self).wf(),
            final(self).cow() == old(self).cow().insert(phys_addr, initial_refs),
            final(self).total_faults() == old(self).total_faults(),
            final(self).cow_faults() == old(self).cow_faults(),
            final(self).protection_violations() == old(self).protection_violations(),
            final(self).demand_paging() == old(self).demand_paging(),
            final(self).by_agent() == old(self).by_agent(),
    {
        self.cow_pages.insert(phys_addr, initial_refs);
    }

    /// Counts a fault and classifies it; `mapping` tells which agent owns
    /// the faulting address.
    pub fn begin_page_fault(
        &mut self,
        address: u64,
        error_code: u64,
        agent_id: Option<u64>,
        mapping: &AgentMemoryMapping,
        events: &mut Option<KernelEventSystem>,
        now: u64,
    ) -> (r: (FaultStep, FaultAction))
        requires
            old(self).room_for(agent_id),
        ensures
            r == fault_start(address, error_code, agent_id, owner_of(mapping.owners(), address)),
            published(*old(events), *final(events), fault_notice(error_code, agent_id, now)),
            old(self).counters_add_up() ==> final(self).counters_add_up(),
            final(self).cow() == old(self).cow(),
            final(self).wf() == old(self).wf(),
            final(self).total_faults() == old(self).total_faults() + 1,
            final(self).by_agent() == counted(old(self).by_agent(), agent_id),
            final(self).demand_paging() == old(self).demand_paging() + if error_code
                & PF_PROTECTION_VIOLATION == 0 {
                1int
            } else {
                0int
            },
            final(self).protection_violations() == old(self).protection_violations() + if error_code
                & PF_PROTECTION_VIOLATION != 0 {
                1int
            } else {
                0int
            },
            final(self).cow_faults() == old(self).cow_faults() + if r.0 is CowUnmap {
                1int
            } else {
                0int
            },
    {
        proof {
            if old(self).counters_add_up() {
                lemma_counted_sum(old(self).by_agent(), agent_id);
            }
        }
        self.stats.total_faults = self.stats.total_faults + 1;
        match agent_id {
            Some(a) => {
                let count = match self.stats.by_agent.get(&a) {
                    Some(c) => *c + 1,
                    None => 1,
                };
                self.stats.by_agent.insert(a, count);
            },
            None => {},
        }
        if error_code & PF_PROTECTION_VIOLATION == 0 {
            self.stats.demand_paging = self.stats.demand_paging + 1;
            let flags = if agent_id.is_some() {
                PRESENT | WRITABLE | USER_ACCESSIBLE
            } else {
                PRESENT | WRITABLE
            };
            let agent = match agent_id {
                Some(a) => a,
                None => 0,
            };
            proof {
                lemma_published_nothing(*events);
            }
            return (FaultStep::DemandFrame { address, flags, agent }, FaultAction::AllocateFrame);
        }
        self.stats.protection_violations = self.stats.protection_violations + 1;
        if error_code & PF_USER_MODE != 0 {
            if let Some(a) = agent_id {
                announce(events, EventType::VirtualMemory, a, now);
                let owner = mapping.get_agent_for_address(address);
                if owner != Some(a) {
                    return (
                        FaultStep::Done,
                        FaultAction::Finish { result: Err(PageFaultError::ReadViolation) },
                    );
                }
                if error_code & PF_INSTRUCTION_FETCH != 0 {
                    return (
                        FaultStep::Done,
                        FaultAction::Finish {
                            result: Err(PageFaultError::InstructionFetchViolation),
                        },
                    );
                }
                if error_code & PF_CAUSED_BY_WRITE != 0 {
                    self.stats.cow_faults = self.stats.cow_faults + 1;
                    return (
                        FaultStep::CowUnmap { address, agent: a },
                        FaultAction::Unmap { address },
                    );
                }
                return (
                    FaultStep::Done,
                    FaultAction::Finish { result: Err(PageFaultError::ReadViolation) },
                );
            }
        }
        let notice = KernelEvent { event_type: EventType::Security, timestamp: now, agent_id: None, data: Vec::new() };
        proof {
            assert(seq![event_view(notice)] =~= fault_notice(error_code, agent_id, now));
            assert(self.cow_pages@ == old(self).cow_pages@);
        }
        publish_event(events, notice);
        (
            FaultStep::Done,
            FaultAction::Finish { result: Err(PageFaultError::KernelProtectionViolation) },
        )
    }

    /// Takes the outcome of the last action and names the next one. When
    /// the old frame of a copy-on-write fault turns out to be tracked, it
    /// loses a reference, and its entry goes when none is left.
    pub fn step(&mut self, step: FaultStep, event: FaultEvent) -> (r: (FaultStep, FaultAction))
        requires
            old(self).wf(),
            event_fits(step, event),
        ensures
            final(self).wf(),
            r == fault_transition(step, event, old(self).cow()),
            final(self).cow() == match (step, event) {
                (FaultStep::CowUnmap { .. }, FaultEvent::Unmapped(Some(old_frame))) => cow_released(
                    old(self).cow(),
                    old_frame,
                ),
                _ => old(self).cow(),
            },
            final(self).total_faults() == old(self).total_faults(),
            final(self).cow_faults() == old(self).cow_faults(),
            final(self).protection_violations() == old(self).protection_violations(),
            final(self).demand_paging() == old(self).demand_paging(),
            final(self).by_agent() == old(self).by_agent(),
    {
        let ghost cow0 = self.cow_pages@;
        match step {
            FaultStep::DemandFrame { address, flags, agent } => match event {
                FaultEvent::FrameAllocated(Some(frame)) => (
                    FaultStep::DemandMap { address },
                    FaultAction::MapPage { address, frame, flags, agent },
                ),
                _ => (
                    FaultStep::Done,
                    FaultAction::Finish { result: Err(PageFaultError::OutOfMemory) },
                ),
            },
            FaultStep::DemandMap { address } => match event {
                FaultEvent::Mapped(true) => (FaultStep::DemandZero, FaultAction::ZeroPage { address }),
                _ => (
                    FaultStep::Done,
                    FaultAction::Finish { result: Err(PageFaultError::MappingFailed) },
                ),
            },
            FaultStep::DemandZero => (FaultStep::Done, FaultAction::Finish { result: Ok(()) }),
            FaultStep::CowUnmap { address, agent } => match event {
                FaultEvent::Unmapped(Some(old_frame)) => {
                    let tracked_refs = match self.cow_pages.get(&old_frame) {
                        Some(c) => *c,
                        None => 0,
                    };
                    let free_old = tracked_refs <= 1;
                    if tracked_refs == 1 {
                        self.cow_pages.remove(&old_frame);
                    } else if tracked_refs > 1 {
                        self.cow_pages.insert(old_frame, tracked_refs - 1);
                    }
                    (
                        FaultStep::CowNewFrame { address, agent, old: old_frame, free_old },
                        FaultAction::AllocateFrame,
                    )
                },
                _ => (FaultStep::CowFreshFrame { address, agent }, FaultAction::AllocateFrame),
            },
            FaultStep::CowFreshFrame { address, agent } => match event {
                FaultEvent::FrameAllocated(Some(frame)) => (
                    FaultStep::CowFreshMap,
                    FaultAction::MapPage {
                        address,
                        frame,
                        flags: PRESENT | WRITABLE | USER_ACCESSIBLE,
                        agent,
                    },
                ),
                _ => (
                    FaultStep::Done,
                    FaultAction::Finish { result: Err(PageFaultError::OutOfMemory) },
                ),
            },
            FaultStep::CowFreshMap => match event {
                FaultEvent::Mapped(true) => (FaultStep::Done, FaultAction::Finish { result: Ok(()) }),
                _ => (
                    FaultStep::Done,
                    FaultAction::Finish { result: Err(PageFaultError::MappingFailed) },
                ),
            },
            FaultStep::CowNewFrame { address, agent, old, free_old } => match event {
                FaultEvent::FrameAllocated(Some(new)) => (
                    FaultStep::CowCopy { address, agent, old, new, free_old },
                    FaultAction::CopyFrame { from: old, to: new },
                ),
                _ => (
                    FaultStep::Done,
                    FaultAction::Finish { result: Err(PageFaultError::OutOfMemory) },
                ),
            },
            FaultStep::CowCopy { address, agent, old, new, free_old } => (
                FaultStep::CowMap { old, free_old },
                FaultAction::MapPage {
                    address,
                    frame: new,
                    flags: PRESENT | WRITABLE | USER_ACCESSIBLE,
                    agent,
                },
            ),
            FaultStep::CowMap { old, free_old } => match event {
                FaultEvent::Mapped(true) => {
                    if free_old {
                        (FaultStep::CowFreeOld, FaultAction::FreeFrame { frame: old })
                    } else {
                        (FaultStep::Done, FaultAction::Finish { result: Ok(()) })
                    }
                },
                _ => (
                    FaultStep::Done,
                    FaultAction::Finish { result: Err(PageFaultError::MappingFailed) },
                ),
            },
            FaultStep::CowFreeOld => (FaultStep::Done, FaultAction::Finish { result: Ok(()) }),
            FaultStep::Done => (
                FaultStep::Done,
                FaultAction::Finish { result: Err(PageFaultError::CowFailed) },
            ),
        }
    }

    /// Gives `agent_id` a level-4 page table in a frame taken from
    /// `frames`, replacing any it had, and returns the frame; the caller
    /// clears it. Without a free frame nothing changes.
    pub fn create_agent_table(&mut self, agent_id: u64, frames: &mut BitmapFrameAllocator) -> (r: Result<
        u64,
        PageTableError,
    >)
        requires
            old(frames).wf(),
        ensures
            final(frames).wf(),
            final(frames).total() == old(frames).total(),
            final(frames).first() == old(frames).first(),
            match probe_from(old(frames).bits(), old(frames).next(), old(frames).total(), 0) {
                None => {
                    &&& r == Err::<u64, PageTableError>(PageTableError::OutOfMemory)
                    &&& final(frames).bits() == old(frames).bits()
                    &&& final(self).agent_tables() == old(self).agent_tables()
                },
                Some(idx) => {
                    let frame = (old(frames).first() + idx * FRAME_SIZE) as u64;
                    &&& r == Ok::<u64, PageTableError>(frame)
                    &&& final(frames).bits() == cleared(old(frames).bits(), idx)
                    &&& final(self).agent_tables() == old(self).agent_tables().insert(agent_id, frame)
                },
            },
            final(self).cow() == old(self).cow(),
            final(self).wf() == old(self).wf(),
            final(self).total_faults() == old(self).total_faults(),
            final(self).cow_faults() == old(self).cow_faults(),
            final(self).protection_violations() == old(self).protection_violations(),
            final(self).demand_paging() == old(self).demand_paging(),
            final(self).by_agent() == old(self).by_agent(),
    {
        match frames.allocate_frame() {
            Some(frame) => {
                self.agent_tables.insert(agent_id, frame);
                Ok(frame)
            },
            None => Err(PageTableError::OutOfMemory),
        }
    }

    /// The frame of `agent_id`'s level-4 page table, to be loaded into CR3.
    pub fn agent_table(&self, agent_id: u64) -> (r: Result<u64, PageTableError>)
        ensures
            r == if self.agent_tables().contains_key(agent_id) {
                Ok::<u64, PageTableError>(self.agent_tables()[agent_id])
            } else {
                Err(PageTableError::InvalidAgent)
            },
    {
        match self.agent_tables.get(&agent_id) {
            Some(f) => Ok(*f),
            None => Err(PageTableError::InvalidAgent),
        }
    }

    /// The fault counters and each agent's fault count.
    pub fn get_page_fault_stats(&self) -> (r: (u64, u64, u64, u64, BTreeMap<u64, u64>))
        ensures
            r.0 == self.total_faults(),
            r.1 == self.cow_faults(),
            r.2 == self.protection_violations(),
            r.3 == self.demand_paging(),
            r.4@ == self.by_agent(),
    {
        (
            self.stats.total_faults,
            self.stats.cow_faults,
            self.stats.protection_violations,
            self.stats.demand_paging,
            self.stats.by_agent.clone(),
        )
    }
}

/// Gives `agent_id` its own level-4 page table; see
/// [`PageTableManager::create_agent_table`]. Before the paging layer is set
/// up there is none to give.
pub fn create_agent_page_table(
    manager: &mut Option<PageTableManager>,
    agent_id: u64,
    frames: &mut BitmapFrameAllocator,
) -> (r: Result<u64, PageTableError>)
    requires
        old(frames).wf(),
    ensures
        final(frames).wf(),
        (*final(manager)) is Some == (*old(manager)) is Some,
        (*old(manager)) is None ==> r == Err::<u64, PageTableError>(PageTableError::NotInitialized)
            && final(frames).bits() == old(frames).bits() && final(frames).next() == old(frames).next(),
        (*old(manager)) matches Some(m0) ==> {
            let m1 = (*final(manager))->0;
            match probe_from(old(frames).bits(), old(frames).next(), old(frames).total(), 0) {
                None => r == Err::<u64, PageTableError>(PageTableError::OutOfMemory) && m1.agent_tables()
                    == m0.agent_tables(),
                Some(idx) => {
                    let frame = (old(frames).first() + idx * FRAME_SIZE) as u64;
                    &&& r == Ok::<u64, PageTableError>(frame)
                    &&& final(frames).bits() == cleared(old(frames).bits(), idx)
                    &&& m1.agent_tables() == m0.agent_tables().insert(agent_id, frame)
                },
            }
        },
{
    match manager {
        Some(m) => m.create_agent_table(agent_id, frames),
        None => Err(PageTableError::NotInitialized),
    }
}

/// The frame of `agent_id`'s page table, to be loaded into CR3; see
/// [`PageTableManager::agent_table`].
pub fn switch_to_agent_page_table(manager: &Option<PageTableManager>, agent_id: u64) -> (r: Result<
    u64,
    PageTableError,
>)
    ensures
        r == match *manager {
            None => Err::<u64, PageTableError>(PageTableError::NotInitialized),
            Some(m) => if m.agent_tables().contains_key(agent_id) {
                Ok(m.agent_tables()[agent_id])
            } else {
                Err(PageTableError::InvalidAgent)
            },
        },
{
    match manager {
        Some(m) => m.agent_table(agent_id),
        None => Err(PageTableError::NotInitialized),
    }
}

/// The statistics reported before the paging layer is set up.
pub fn empty_page_fault_stats() -> (r: (u64, u64, u64, u64, BTreeMap<u64, u64>))
    ensures
        r.0 == 0 && r.1 == 0 && r.2 == 0 && r.3 == 0,
        r.4@ == Map::<u64, u64>::empty(),
{
    (0, 0, 0, 0, BTreeMap::new())
}

/// A copy-on-write frame shared `n` times is freed by the fault that drops
/// its last reference, and by no earlier one: that fault allocates the new
/// frame first and carries the decision to free the old one.
pub proof fn law_cow_frame_freed_at_last_reference(cow: Map<u64, usize>, old: u64)
    requires
        cow.contains_key(old),
        cow[old] > 0,
    ensures
        cow[old] == 1 ==> !cow_released(cow, old).contains_key(old),
        cow[old] > 1 ==> cow_released(cow, old).contains_key(old) && cow_released(cow, old)[old]
            == cow[old] - 1,
        fault_transition(
            FaultStep::CowUnmap { address: 0, agent: 0 },
            FaultEvent::Unmapped(Some(old)),
            cow,
        ) == (
            FaultStep::CowNewFrame { address: 0, agent: 0, old, free_old: cow[old] == 1 },
            FaultAction::AllocateFrame,
        ),
{
}

/// A copy-on-write fault on a mapped page that succeeds allocates a new
/// frame, copies the old frame into it, maps it, and only then frees the
/// old frame, once, when [`frees_old`] says so; whatever the references
/// are by then.
pub proof fn law_cow_copy_before_free(
    address: u64,
    agent: u64,
    old: u64,
    new: u64,
    cow0: Map<u64, usize>,
    cow1: Map<u64, usize>,
    cow2: Map<u64, usize>,
    cow3: Map<u64, usize>,
    cow4: Map<u64, usize>,
)
    ensures
        ({
            let (s1, a1) = fault_transition(
                FaultStep::CowUnmap { address, agent },
                FaultEvent::Unmapped(Some(old)),
                cow0,
            );
            let (s2, a2) = fault_transition(s1, FaultEvent::FrameAllocated(Some(new)), cow1);
            let (s3, a3) = fault_transition(s2, FaultEvent::Completed, cow2);
            let (s4, a4) = fault_transition(s3, FaultEvent::Mapped(true), cow3);
            &&& a1 == FaultAction::AllocateFrame
            &&& a2 == FaultAction::CopyFrame { from: old, to: new }
            &&& a3 == FaultAction::MapPage { address, frame: new, flags: cow_flags(), agent }
            &&& if frees_old(cow0, old) {
                &&& a4 == FaultAction::FreeFrame { frame: old }
                &&& fault_transition(s4, FaultEvent::Completed, cow4) == finish(Ok(()))
            } else {
                (s4, a4) == finish(Ok(()))
            }
        }),
{
}

/// A fault always ends: every step but the last names an action that is not
/// [`FaultAction::Finish`], and a finished fault has no further step.
pub proof fn law_finish_ends_the_fault(step: FaultStep, event: FaultEvent, cow: Map<u64, usize>)
    ensures
        fault_transition(step, event, cow).1 is Finish <==> fault_transition(step, event, cow).0
            is Done,
{
}

} // verus!
