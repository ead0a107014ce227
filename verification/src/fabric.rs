//! The memory fabric: memory regions of agents, pages shared between
//! agents, leases with expiry and renewal, and tags on regions.
//!
//! Page tables are changed by the caller: creating a shared page yields the
//! virtual address at which each agent sees it.

use vstd::prelude::*;
use crate::events::{
    lemma_published_nothing, publish_event, published, EventType, KernelEvent, KernelEventSystem,
};

verus! {

/// First virtual address of fabric regions.
pub const REGION_BASE: u64 = 0x1000_0000;

/// Virtual address space reserved per region.
pub const REGION_STRIDE: u64 = 0x100_0000;

/// First virtual address of shared pages.
pub const SHARED_BASE: u64 = 0x3000_0000;

/// Virtual address space reserved per agent for shared pages.
pub const SHARED_AGENT_STRIDE: u64 = 0x100_0000;

/// How long an automatically renewed lease is extended.
pub const LEASE_RENEWAL: u64 = 3600;

/// Kind of a memory region.
#[derive(Clone, Copy, PartialEq, Eq, Structural, Debug)]
pub enum MemoryRegionType {
    /// Cleared when the agent ends.
    Ephemeral,
    /// Outlives the agent.
    Persistent,
    /// Shared between agents.
    Shared,
}

/// A tag on a region.
pub struct MemoryTag {
    pub agent_id: u64,
    pub tag: Vec<u8>,
    pub permissions: u64,
}

/// A lease on a region.
#[derive(Clone, Copy, PartialEq, Eq, Structural, Debug)]
pub struct MemoryLease {
    pub agent_id: u64,
    pub region_id: u64,
    pub expires_at: u64,
    pub auto_renew: bool,
}

/// A region of an agent.
#[derive(Clone, Copy, PartialEq, Eq, Structural, Debug)]
pub struct MemoryRegion {
    pub region_id: u64,
    pub agent_id: u64,
    pub region_type: MemoryRegionType,
    pub start: u64,
    pub size: u64,
}

/// A physical page shared between agents.
pub struct SharedMemoryPage {
    pub page_id: u64,
    pub physical_addr: u64,
    pub virtual_addrs: Vec<(u64, u64)>,
    pub agents: Vec<u64>,
    pub version: u64,
    pub ref_count: u64,
}

/// Why a fabric operation failed.
#[derive(Clone, Copy, PartialEq, Eq, Structural, Debug)]
pub enum MemoryFabricError {
    InvalidRegion,
    InvalidAgent,
    OutOfMemory,
    PermissionDenied,
}

/// Whether the ranges from `ns` to `ne` and from `es` to `ee` collide, as
/// the fabric tests it.
pub open spec fn collides(ns: int, ne: int, es: int, ee: int) -> bool {
    (ns >= es && ns < ee) || (ne > es && ne <= ee) || (ns <= es && ne >= ee)
}

/// Whether a new region from `start` of `size` bytes collides with one of
/// `regions`.
pub open spec fn overlaps_any(regions: Seq<MemoryRegion>, start: u64, size: u64) -> bool {
    exists|i: int|
        0 <= i < regions.len() && collides(
            start as int,
            start + size,
            (#[trigger] regions[i]).start as int,
            regions[i].start + regions[i].size,
        )
}

/// The start of region `id`.
pub open spec fn region_start(id: u64) -> int {
    REGION_BASE + id * REGION_STRIDE
}

/// Where agent `agent` sees shared page `page`.
pub open spec fn shared_addr(page: u64, agent: u64) -> int {
    SHARED_BASE + page * 4096 + agent * SHARED_AGENT_STRIDE
}

/// `regions` without the ephemeral regions of `agent`.
pub open spec fn without_ephemeral(regions: Seq<MemoryRegion>, agent: u64) -> Seq<MemoryRegion>
    decreases regions.len(),
{
    if regions.len() == 0 {
        Seq::empty()
    } else {
        let r = regions.last();
        let rest = without_ephemeral(regions.drop_last(), agent);
        if r.agent_id == agent && r.region_type == MemoryRegionType::Ephemeral {
            rest
        } else {
            rest.push(r)
        }
    }
}

/// The leases after a check at `now`: an expired lease that renews itself
/// runs for another hour; an expired one that does not is gone.
pub open spec fn leases_checked(leases: Seq<(u64, MemoryLease)>, now: u64) -> Seq<(u64, MemoryLease)>
    decreases leases.len(),
{
    if leases.len() == 0 {
        Seq::empty()
    } else {
        let (id, l) = leases.last();
        let rest = leases_checked(leases.drop_last(), now);
        if l.expires_at < now {
            if l.auto_renew {
                rest.push((id, MemoryLease { expires_at: (now + LEASE_RENEWAL) as u64, ..l }))
            } else {
                rest
            }
        } else {
            rest.push((id, l))
        }
    }
}

/// The leases without the expired, non-renewing leases of `agent`.
pub open spec fn leases_without_expired(leases: Seq<(u64, MemoryLease)>, agent: u64, now: u64) -> Seq<
    (u64, MemoryLease),
>
    decreases leases.len(),
{
    if leases.len() == 0 {
        Seq::empty()
    } else {
        let (id, l) = leases.last();
        let rest = leases_without_expired(leases.drop_last(), agent, now);
        if l.agent_id == agent && l.expires_at < now && !l.auto_renew {
            rest
        } else {
            rest.push((id, l))
        }
    }
}

/// Whether renewing any expired renewing lease stays within `u64`.
pub open spec fn renewal_fits(leases: Seq<(u64, MemoryLease)>, now: u64) -> bool {
    forall|i: int|
        0 <= i < leases.len() && (#[trigger] leases[i]).1.expires_at < now && leases[i].1.auto_renew
            ==> now + LEASE_RENEWAL <= u64::MAX
}

/// Where a tag of `region` goes among `tags`, sorted by region: after every
/// tag of a region not above it, among the first `j`.
pub open spec fn tag_pos(tags: Seq<(u64, MemoryTag)>, region: u64, j: int) -> int
    decreases j,
{
    if j > 0 && tags[j - 1].0 > region {
        tag_pos(tags, region, j - 1)
    } else {
        j
    }
}

/// The tags of region `region`, in the order they were added.
pub open spec fn tags_of(tags: Seq<(u64, MemoryTag)>, region: u64) -> Seq<(u64, MemoryTag)> {
    tags.filter(in_region(region))
}

/// Whether a tag belongs to `region`.
pub open spec fn in_region(region: u64) -> spec_fn((u64, MemoryTag)) -> bool {
    |t: (u64, MemoryTag)| t.0 == region
}

/// Whether a tag belongs to `agent`.
pub open spec fn of_agent(agent: u64) -> spec_fn((u64, MemoryTag)) -> bool {
    |t: (u64, MemoryTag)| t.1.agent_id == agent
}

/// The tags of agent `agent`, by region and then in the order they were
/// added.
pub open spec fn tags_by_agent(tags: Seq<(u64, MemoryTag)>, agent: u64) -> Seq<(u64, MemoryTag)> {
    tags.filter(of_agent(agent))
}

fn copy_bytes(v: &Vec<u8>) -> (c: Vec<u8>)
    ensures
        c@ == v@,
{
    let mut c: Vec<u8> = Vec::new();
    let mut i: usize = 0;
    while i < v.len()
        invariant
            i <= v@.len(),
            c@ == v@.subrange(0, i as int),
        decreases v.len() - i,
    {
        c.push(v[i]);
        i = i + 1;
    }
    c
}

fn copy_tag(t: &MemoryTag) -> (c: MemoryTag)
    ensures
        c.agent_id == t.agent_id,
        c.tag@ == t.tag@,
        c.permissions == t.permissions,
{
    MemoryTag { agent_id: t.agent_id, tag: copy_bytes(&t.tag), permissions: t.permissions }
}

/// Whether two tag lists hold the same tags, field by field.
pub open spec fn same_tags(a: Seq<(u64, MemoryTag)>, b: Seq<(u64, MemoryTag)>) -> bool {
    a.len() == b.len() && forall|i: int|
        0 <= i < a.len() ==> (#[trigger] a[i]).0 == b[i].0 && a[i].1.agent_id == b[i].1.agent_id
            && a[i].1.tag@ == b[i].1.tag@ && a[i].1.permissions == b[i].1.permissions
}

/// Whether `v` holds, field by field, the tags of `t`.
pub open spec fn same_tag_values(v: Seq<MemoryTag>, t: Seq<(u64, MemoryTag)>) -> bool {
    v.len() == t.len() && forall|i: int|
        0 <= i < v.len() ==> (#[trigger] v[i]).agent_id == t[i].1.agent_id && v[i].tag@ == t[i].1.tag@
            && v[i].permissions == t[i].1.permissions
}

/// The first index of the page with identifier `id`, from index `i` on.
pub open spec fn page_index(pages: Seq<SharedMemoryPage>, id: u64, i: int) -> Option<int>
    decreases pages.len() - i,
{
    if i < 0 || i >= pages.len() {
        None
    } else if pages[i].page_id == id {
        Some(i)
    } else {
        page_index(pages, id, i + 1)
    }
}

/// The address recorded for `agent` in `addrs`, first match.
pub open spec fn addr_for(addrs: Seq<(u64, u64)>, agent: u64) -> Option<u64>
    decreases addrs.len(),
{
    if addrs.len() == 0 {
        None
    } else if addrs[0].0 == agent {
        Some(addrs[0].1)
    } else {
        addr_for(addrs.drop_first(), agent)
    }
}

/// Whether region `next_region()` of `size` bytes can be placed without
/// overflowing addresses, with every region's end an address too.
pub open spec fn room_for(f: MemoryFabricManager, size: u64) -> bool {
    &&& region_start(f.next_region()) + size <= u64::MAX
    &&& forall|i: int|
        0 <= i < f.regions().len() ==> (#[trigger] f.regions()[i]).start + f.regions()[i].size
            <= u64::MAX
}

/// What [`MemoryFabricManager::create_region`] does: `f0` before, `f1`
/// after, `r` returned.
pub open spec fn created(
    f0: MemoryFabricManager,
    f1: MemoryFabricManager,
    agent_id: u64,
    region_type: MemoryRegionType,
    size: u64,
    r: Result<u64, MemoryFabricError>,
) -> bool {
    &&& f1.wf() == f0.wf()
    &&& f1.next_region() == f0.next_region().wrapping_add(1)
    &&& f1.leases() == f0.leases()
    &&& f1.tags() == f0.tags()
    &&& f1.pages() == f0.pages()
    &&& f1.next_page() == f0.next_page()
    &&& f1.next_lease() == f0.next_lease()
    &&& ({
        let id = f0.next_region();
        let start = region_start(id) as u64;
        if overlaps_any(f0.regions(), start, size) {
            &&& r == Err::<u64, MemoryFabricError>(MemoryFabricError::OutOfMemory)
            &&& f1.regions() == f0.regions()
        } else {
            &&& r == Ok::<u64, MemoryFabricError>(id)
            &&& f1.regions() == f0.regions().push(
                MemoryRegion { region_id: id, agent_id, region_type, start, size },
            )
        }
    })
}

/// What creating a region of `agent` at `now` publishes: a memory event of
/// the agent when the region was created, nothing otherwise.
pub open spec fn region_notice(agent: u64, now: u64, created: bool) -> Seq<
    (EventType, u64, Option<u64>, Seq<u8>),
> {
    if created {
        seq![(EventType::VirtualMemory, now, Some(agent), Seq::<u8>::empty())]
    } else {
        Seq::empty()
    }
}

/// What [`MemoryFabricManager::cleanup_agent_regions`] does: `f0` before,
/// `f1` after.
pub open spec fn cleaned(f0: MemoryFabricManager, f1: MemoryFabricManager, agent_id: u64, now: u64) -> bool {
    &&& f1.regions() == without_ephemeral(f0.regions(), agent_id)
    &&& f1.leases() == leases_without_expired(f0.leases(), agent_id, now)
    &&& f1.tags() == f0.tags()
    &&& f1.pages() == f0.pages()
    &&& f1.wf() == f0.wf()
    &&& f1.next_region() == f0.next_region()
    &&& f1.next_page() == f0.next_page()
    &&& f1.next_lease() == f0.next_lease()
}

/// The memory fabric.
pub struct MemoryFabricManager {
    regions: Vec<MemoryRegion>,
    shared_pages: Vec<SharedMemoryPage>,
    leases: Vec<(u64, MemoryLease)>,
    tags: Vec<(u64, MemoryTag)>,
    next_region_id: u64,
    next_page_id: u64,
    next_lease_id: u64,
}

impl MemoryFabricManager {
    /// The regions, oldest first.
    pub closed spec fn regions(&self) -> Seq<MemoryRegion> {
        self.regions@
    }

    /// The leases with their identifiers, oldest first.
    pub closed spec fn leases(&self) -> Seq<(u64, MemoryLease)> {
        self.leases@
    }

    /// The tags with their regions, by region.
    pub closed spec fn tags(&self) -> Seq<(u64, MemoryTag)> {
        self.tags@
    }

    /// Identifier, physical address, agents and version of each shared page.
    pub closed spec fn pages(&self) -> Seq<(u64, u64, Seq<u64>, u64)> {
        self.shared_pages@.map_values(
            |p: SharedMemoryPage| (p.page_id, p.physical_addr, p.agents@, p.version),
        )
    }

    /// The identifier the next region gets.
    pub closed spec fn next_region(&self) -> u64 {
        self.next_region_id
    }

    /// The identifier the next shared page gets.
    pub closed spec fn next_page(&self) -> u64 {
        self.next_page_id
    }

    /// The identifier the next lease gets.
    pub closed spec fn next_lease(&self) -> u64 {
        self.next_lease_id
    }

    /// Whether a region of `size` bytes can be created; see [`room_for`].
    pub open spec fn has_room(&self, size: u64) -> bool {
        room_for(*self, size)
    }

    /// Whether a region of `size` bytes can be created; see [`room_for`].
    pub fn can_create(&self, size: u64) -> (r: bool)
        ensures
            r == self.has_room(size),
    {
        let id = self.next_region_id as u128;
        assert(id * 0x100_0000 <= 0xFFFF_FFFF_FFFF_FFFF * 0x100_0000) by (nonlinear_arith)
            requires
                id <= 0xFFFF_FFFF_FFFF_FFFF,
        ;
        let start = REGION_BASE as u128 + id * REGION_STRIDE as u128;
        if start + size as u128 > u64::MAX as u128 {
            return false;
        }
        let mut i: usize = 0;
        while i < self.regions.len()
            invariant
                i <= self.regions@.len(),
                forall|k: int| 0 <= k < i ==> (#[trigger] self.regions@[k]).start + self.regions@[k].size <= u64::MAX,
            decreases self.regions.len() - i,
        {
            let r = &self.regions[i];
            if r.size > u64::MAX - r.start {
                return false;
            }
            i = i + 1;
        }
        true
    }

    /// Tags stay sorted by region.
    pub closed spec fn wf(&self) -> bool {
        forall|i: int, j: int|
            0 <= i <= j < self.tags@.len() ==> (#[trigger] self.tags@[i]).0 <= (#[trigger] self.tags@[j]).0
    }

    pub fn new() -> (m: Self)
        ensures
            m.wf(),
            m.regions() == Seq::<MemoryRegion>::empty(),
            m.leases() == Seq::<(u64, MemoryLease)>::empty(),
            m.tags().len() == 0,
            m.pages() == Seq::<(u64, u64, Seq<u64>, u64)>::empty(),
            m.next_region() == 1 && m.next_page() == 1 && m.next_lease() == 1,
    {
        let m = MemoryFabricManager {
            regions: Vec::new(),
            shared_pages: Vec::new(),
            leases: Vec::new(),
            tags: Vec::new(),
            next_region_id: 1,
            next_page_id: 1,
            next_lease_id: 1,
        };
        proof {
            assert(m.pages() =~= Seq::<(u64, u64, Seq<u64>, u64)>::empty());
        }
        m
    }

    /// Creates a region of `size` bytes for `agent_id` at the address
    /// reserved for the next region identifier, unless it collides with an
    /// existing region. The identifier is used up either way. A region
    /// created is announced on `events` at `now`.
    pub fn create_region(
        &mut self,
        agent_id: u64,
        region_type: MemoryRegionType,
        size: u64,
        events: &mut Option<KernelEventSystem>,
        now: u64,
    ) -> (r: Result<u64, MemoryFabricError>)
        requires
            old(self).has_room(size),
        ensures
            created(*old(self), *final(self), agent_id, region_type, size, r),
            published(*old(events), *final(events), region_notice(agent_id, now, r is Ok)),
    {
        let r = self.place_region(agent_id, region_type, size);
        if r.is_ok() {
            let notice = KernelEvent {
                event_type: EventType::VirtualMemory,
                timestamp: now,
                agent_id: Some(agent_id),
                data: Vec::new(),
            };
            publish_event(events, notice);
        } else {
            proof {
                lemma_published_nothing(*events);
            }
        }
        r
    }

    fn place_region(&mut self, agent_id: u64, region_type: MemoryRegionType, size: u64) -> (r: Result<
        u64,
        MemoryFabricError,
    >)
        requires
            old(self).has_room(size),
        ensures
            created(*old(self), *final(self), agent_id, region_type, size, r),
    {
        let region_id = self.next_region_id;
        let start = REGION_BASE + region_id * REGION_STRIDE;
        let mut i: usize = 0;
        while i < self.regions.len()
            invariant
                i <= self.regions@.len(),
                *self == *old(self),
                region_id == self.next_region_id,
                start == region_start(region_id),
                start + size <= u64::MAX,
                forall|k: int|
                    0 <= k < old(self).regions().len() ==> (#[trigger] old(self).regions()[k]).start
                        + old(self).regions()[k].size <= u64::MAX,
                forall|k: int|
                    0 <= k < i ==> !collides(
                        start as int,
                        start + size,
                        (#[trigger] self.regions@[k]).start as int,
                        self.regions@[k].start + self.regions@[k].size,
                    ),
            decreases self.regions.len() - i,
        {
            assert(old(self).regions()[i as int] == self.regions@[i as int]);
            let existing_start = self.regions[i].start;
            let existing_end = existing_start + self.regions[i].size;
            let new_start = start;
            let new_end = new_start + size;
            if (new_start >= existing_start && new_start < existing_end) || (new_end > existing_start
                && new_end <= existing_end) || (new_start <= existing_start && new_end
                >= existing_end) {
                self.next_region_id = region_id.wrapping_add(1);
                assert(self.tags@ == old(self).tags@);
                return Err(MemoryFabricError::OutOfMemory);
            }
            i = i + 1;
        }
        self.next_region_id = region_id.wrapping_add(1);
        self.regions.push(MemoryRegion { region_id, agent_id, region_type, start, size });
        assert(self.tags@ == old(self).tags@);
        Ok(region_id)
    }

    /// Creates a page at `physical_addr` shared by `agents`, each seeing it
    /// at its own address; the page starts at version 1 with one reference
    /// per agent, and is announced on `events` at `now` for no one agent.
    /// Returns its identifier and each agent's address, for the caller to
    /// map.
    pub fn create_shared_page(
        &mut self,
        agents: Vec<u64>,
        physical_addr: u64,
        events: &mut Option<KernelEventSystem>,
        now: u64,
    ) -> (r: (u64, Vec<(u64, u64)>))
        requires
            forall|i: int|
                0 <= i < agents@.len() ==> shared_addr(old(self).next_page(), #[trigger] agents@[i])
                    <= u64::MAX,
        ensures
            r.0 == old(self).next_page(),
            final(self).next_page() == old(self).next_page().wrapping_add(1),
            r.1@.len() == agents@.len(),
            forall|i: int|
                0 <= i < agents@.len() ==> #[trigger] r.1@[i] == (
                    agents@[i],
                    shared_addr(r.0, agents@[i]) as u64,
                ),
            final(self).pages() == old(self).pages().push((r.0, physical_addr, agents@, 1)),
            final(self).page_addrs() == old(self).page_addrs().push(r.1@),
            final(self).regions() == old(self).regions(),
            final(self).leases() == old(self).leases(),
            final(self).tags() == old(self).tags(),
            final(self).wf() == old(self).wf(),
            final(self).next_region() == old(self).next_region(),
            final(self).next_lease() == old(self).next_lease(),
            published(
                *old(events),
                *final(events),
                seq![(EventType::VirtualMemory, now, None::<u64>, Seq::<u8>::empty())],
            ),
    {
        let notice = KernelEvent { event_type: EventType::VirtualMemory, timestamp: now, agent_id: None, data: Vec::new() };
        publish_event(events, notice);
        let page_id = self.next_page_id;
        self.next_page_id = page_id.wrapping_add(1);
        let mut addrs: Vec<(u64, u64)> = Vec::new();
        let mut addrs_copy: Vec<(u64, u64)> = Vec::new();
        let mut i: usize = 0;
        while i < agents.len()
            invariant
                i <= agents@.len(),
                forall|k: int|
                    0 <= k < agents@.len() ==> shared_addr(page_id, #[trigger] agents@[k])
                        <= u64::MAX,
                addrs@.len() == i,
                addrs_copy@ == addrs@,
                forall|k: int|
                    0 <= k < i ==> #[trigger] addrs@[k] == (
                        agents@[k],
                        shared_addr(page_id, agents@[k]) as u64,
                    ),
            decreases agents.len() - i,
        {
            let a = agents[i];
            assert(shared_addr(page_id, agents@[i as int]) <= u64::MAX);
            let v = SHARED_BASE + page_id * 4096 + a * SHARED_AGENT_STRIDE;
            addrs.push((a, v));
            addrs_copy.push((a, v));
            i = i + 1;
        }
        let n = agents.len() as u64;
        let ghost agents_view = agents@;
        let ghost before = self.shared_pages@;
        self.shared_pages.push(
            SharedMemoryPage {
                page_id,
                physical_addr,
                virtual_addrs: addrs,
                agents,
                version: 1,
                ref_count: n,
            },
        );
        proof {
            assert(self.pages() =~= old(self).pages().push((page_id, physical_addr, agents_view, 1)));
            assert(self.page_addrs() =~= old(self).page_addrs().push(addrs_copy@));
        }
        (page_id, addrs_copy)
    }

    /// Adds a tag to `region_id`, after the region's earlier tags.
    pub fn tag_region(&mut self, region_id: u64, tag: MemoryTag) -> (r: Result<(), MemoryFabricError>)
        requires
            old(self).wf(),
        ensures
            r is Ok,
            final(self).wf(),
            ({
                let p = tag_pos(old(self).tags(), region_id, old(self).tags().len() as int);
                &&& 0 <= p <= old(self).tags().len()
                &&& final(self).tags().len() == old(self).tags().len() + 1
                &&& forall|i: int| 0 <= i < p ==> #[trigger] final(self).tags()[i] == old(self).tags()[i]
                &&& final(self).tags()[p].0 == region_id
                &&& final(self).tags()[p].1 == tag
                &&& forall|i: int|
                    p < i < final(self).tags().len() ==> #[trigger] final(self).tags()[i] == old(
                        self,
                    ).tags()[i - 1]
            }),
            final(self).regions() == old(self).regions(),
            final(self).leases() == old(self).leases(),
            final(self).pages() == old(self).pages(),
    {
        let mut j: usize = self.tags.len();
        while j > 0
            invariant
                j <= self.tags@.len(),
                self.tags@ == old(self).tags@,
                tag_pos(self.tags@, region_id, self.tags@.len() as int) == tag_pos(
                    self.tags@,
                    region_id,
                    j as int,
                ),
            ensures
                tag_pos(self.tags@, region_id, self.tags@.len() as int) == j,
            decreases j,
        {
            if self.tags[j - 1].0 <= region_id {
                break;
            }
            j = j - 1;
        }
        proof {
            lemma_tag_pos(self.tags@, region_id, self.tags@.len() as int);
        }
        let ghost old_tags = self.tags@;
        self.tags.insert(j, (region_id, tag));
        proof {
            assert forall|a: int, b: int|
                0 <= a <= b < self.tags@.len() implies (#[trigger] self.tags@[a]).0
                <= (#[trigger] self.tags@[b]).0 by {
                if a < j && b > j {
                    assert(old_tags[a].0 <= old_tags[b - 1].0);
                } else if a < j && b == j {
                    assert(old_tags[a].0 <= old_tags[j - 1].0);
                } else if a == j && b > j {
                } else if a > j {
                    assert(old_tags[a - 1].0 <= old_tags[b - 1].0);
                }
            }
        }
        Ok(())
    }

    /// Creates a lease of `region_id` for `agent_id` until `expires_at`.
    pub fn create_lease(&mut self, agent_id: u64, region_id: u64, expires_at: u64, auto_renew: bool) -> (r:
        Result<u64, MemoryFabricError>)
        ensures
            r == Ok::<u64, MemoryFabricError>(old(self).next_lease()),
            final(self).next_lease() == old(self).next_lease().wrapping_add(1),
            final(self).leases() == old(self).leases().push(
                (old(self).next_lease(), MemoryLease { agent_id, region_id, expires_at, auto_renew }),
            ),
            final(self).regions() == old(self).regions(),
            final(self).tags() == old(self).tags(),
            final(self).pages() == old(self).pages(),
            final(self).wf() == old(self).wf(),
    {
        let lease_id = self.next_lease_id;
        self.next_lease_id = lease_id.wrapping_add(1);
        self.leases.push((lease_id, MemoryLease { agent_id, region_id, expires_at, auto_renew }));
        Ok(lease_id)
    }

    /// Renews or drops the leases expired at `now`.
    pub fn check_leases(&mut self, now: u64)
        requires
            renewal_fits(old(self).leases(), now),
        ensures
            final(self).leases() == leases_checked(old(self).leases(), now),
            final(self).regions() == old(self).regions(),
            final(self).tags() == old(self).tags(),
            final(self).pages() == old(self).pages(),
            final(self).wf() == old(self).wf(),
            final(self).next_lease() == old(self).next_lease(),
    {
        let mut kept: Vec<(u64, MemoryLease)> = Vec::new();
        let mut i: usize = 0;
        while i < self.leases.len()
            invariant
                i <= self.leases@.len(),
                renewal_fits(self.leases@, now),
                kept@ == leases_checked(self.leases@.subrange(0, i as int), now),
            decreases self.leases.len() - i,
        {
            proof {
                assert(self.leases@.subrange(0, i as int + 1).drop_last() =~= self.leases@.subrange(
                    0,
                    i as int,
                ));
            }
            let (id, l) = self.leases[i];
            if l.expires_at < now {
                if l.auto_renew {
                    assert(self.leases@[i as int].1.expires_at < now);
                    kept.push((id, MemoryLease { expires_at: now + LEASE_RENEWAL, ..l }));
                }
            } else {
                kept.push((id, l));
            }
            i = i + 1;
        }
        proof {
            assert(self.leases@.subrange(0, self.leases@.len() as int) =~= self.leases@);
        }
        self.leases = kept;
    }

    /// Expires leases as of `now`; see [`MemoryFabricManager::check_leases`].
    pub fn expire_leases(&mut self, now: u64)
        requires
            renewal_fits(old(self).leases(), now),
        ensures
            final(self).leases() == leases_checked(old(self).leases(), now),
            final(self).regions() == old(self).regions(),
            final(self).tags() == old(self).tags(),
            final(self).pages() == old(self).pages(),
            final(self).wf() == old(self).wf(),
            final(self).next_lease() == old(self).next_lease(),
    {
        self.check_leases(now)
    }

    /// Drops the ephemeral regions of `agent_id` and its expired leases
    /// that do not renew, as of `now`.
    pub fn cleanup_agent_regions(&mut self, agent_id: u64, now: u64)
        ensures
            cleaned(*old(self), *final(self), agent_id, now),
    {
        let mut kept: Vec<MemoryRegion> = Vec::new();
        let mut i: usize = 0;
        while i < self.regions.len()
            invariant
                i <= self.regions@.len(),
                kept@ == without_ephemeral(self.regions@.subrange(0, i as int), agent_id),
            decreases self.regions.len() - i,
        {
            proof {
                assert(self.regions@.subrange(0, i as int + 1).drop_last()
                    =~= self.regions@.subrange(0, i as int));
            }
            let r = self.regions[i];
            if !(r.agent_id == agent_id && r.region_type == MemoryRegionType::Ephemeral) {
                kept.push(r);
            }
            i = i + 1;
        }
        proof {
            assert(self.regions@.subrange(0, self.regions@.len() as int) =~= self.regions@);
        }
        self.regions = kept;
        let mut kept_leases: Vec<(u64, MemoryLease)> = Vec::new();
        let mut k: usize = 0;
        while k < self.leases.len()
            invariant
                k <= self.leases@.len(),
                kept_leases@ == leases_without_expired(
                    self.leases@.subrange(0, k as int),
                    agent_id,
                    now,
                ),
            decreases self.leases.len() - k,
        {
            proof {
                assert(self.leases@.subrange(0, k as int + 1).drop_last() =~= self.leases@.subrange(
                    0,
                    k as int,
                ));
            }
            let (id, l) = self.leases[k];
            if !(l.agent_id == agent_id && l.expires_at < now && !l.auto_renew) {
                kept_leases.push((id, l));
            }
            k = k + 1;
        }
        proof {
            assert(self.leases@.subrange(0, self.leases@.len() as int) =~= self.leases@);
        }
        self.leases = kept_leases;
    }

    /// Copies of the tags of `region_id`, in the order they were added, or
    /// none when it has no tag.
    pub fn get_tags(&self, region_id: u64) -> (r: Option<Vec<MemoryTag>>)
        ensures
            match r {
                None => tags_of(self.tags(), region_id).len() == 0,
                Some(v) => tags_of(self.tags(), region_id).len() > 0 && same_tag_values(
                    v@,
                    tags_of(self.tags(), region_id),
                ),
            },
    {
        let mut out: Vec<MemoryTag> = Vec::new();
        let mut i: usize = 0;
        while i < self.tags.len()
            invariant
                i <= self.tags@.len(),
                same_tag_values(out@, tags_of(self.tags@.subrange(0, i as int), region_id)),
            decreases self.tags.len() - i,
        {
            proof {
                let s = self.tags@.subrange(0, i as int + 1);
                assert(s =~= self.tags@.subrange(0, i as int).push(self.tags@[i as int]));
                self.tags@.subrange(0, i as int).lemma_filter_push(
                    self.tags@[i as int],
                    in_region(region_id),
                );
            }
            let ghost prev_out = out@;
            if self.tags[i].0 == region_id {
                let c = copy_tag(&self.tags[i].1);
                out.push(c);
                proof {
                    let f = tags_of(self.tags@.subrange(0, i as int + 1), region_id);
                    let pf = tags_of(self.tags@.subrange(0, i as int), region_id);
                    assert(f == pf.push(self.tags@[i as int]));
                    assert forall|k: int| 0 <= k < out@.len() implies (#[trigger] out@[k]).agent_id
                        == f[k].1.agent_id && out@[k].tag@ == f[k].1.tag@ && out@[k].permissions
                        == f[k].1.permissions by {
                        if k < prev_out.len() {
                            assert(out@[k] == prev_out[k]);
                            assert(f[k] == pf[k]);
                        }
                    }
                }
            }
            i = i + 1;
        }
        proof {
            assert(self.tags@.subrange(0, self.tags@.len() as int) =~= self.tags@);
        }
        if out.len() == 0 {
            None
        } else {
            Some(out)
        }
    }

    /// Copies of the tags of `agent_id` with their regions, by region.
    pub fn get_tags_by_agent(&self, agent_id: u64) -> (r: Vec<(u64, MemoryTag)>)
        ensures
            same_tags(r@, tags_by_agent(self.tags(), agent_id)),
    {
        let mut out: Vec<(u64, MemoryTag)> = Vec::new();
        let mut i: usize = 0;
        while i < self.tags.len()
            invariant
                i <= self.tags@.len(),
                same_tags(out@, tags_by_agent(self.tags@.subrange(0, i as int), agent_id)),
            decreases self.tags.len() - i,
        {
            proof {
                let s = self.tags@.subrange(0, i as int + 1);
                assert(s =~= self.tags@.subrange(0, i as int).push(self.tags@[i as int]));
                self.tags@.subrange(0, i as int).lemma_filter_push(
                    self.tags@[i as int],
                    of_agent(agent_id),
                );
            }
            if self.tags[i].1.agent_id == agent_id {
                let c = copy_tag(&self.tags[i].1);
                out.push((self.tags[i].0, c));
            }
            i = i + 1;
        }
        proof {
            assert(self.tags@.subrange(0, self.tags@.len() as int) =~= self.tags@);
        }
        out
    }

    /// The index of shared page `page_id`.
    fn find_page(&self, page_id: u64) -> (r: Option<usize>)
        ensures
            match r {
                Some(i) => page_index(self.shared_pages@, page_id, 0) == Some(i as int) && i
                    < self.shared_pages@.len() && self.shared_pages@[i as int].page_id == page_id,
                None => page_index(self.shared_pages@, page_id, 0) is None,
            },
    {
        let mut i: usize = 0;
        while i < self.shared_pages.len()
            invariant
                i <= self.shared_pages@.len(),
                page_index(self.shared_pages@, page_id, 0) == page_index(
                    self.shared_pages@,
                    page_id,
                    i as int,
                ),
            decreases self.shared_pages.len() - i,
        {
            if self.shared_pages[i].page_id == page_id {
                return Some(i);
            }
            i = i + 1;
        }
        None
    }

    /// The reference count of each shared page.
    pub closed spec fn ref_counts(&self) -> Seq<u64> {
        self.shared_pages@.map_values(|p: SharedMemoryPage| p.ref_count)
    }

    /// Where each agent sees each shared page, by page.
    pub closed spec fn page_addrs(&self) -> Seq<Seq<(u64, u64)>> {
        self.shared_pages@.map_values(|p: SharedMemoryPage| p.virtual_addrs@)
    }

    /// The index of shared page `page_id` in [`Self::pages`].
    pub closed spec fn page_at(&self, page_id: u64) -> Option<int> {
        page_index(self.shared_pages@, page_id, 0)
    }

    /// The address at which `agent_id` sees shared page `page_id`.
    pub fn get_shared_page_addr(&self, page_id: u64, agent_id: u64) -> (r: Option<u64>)
        ensures
            r == match self.page_at(page_id) {
                Some(i) => addr_for(self.page_addrs()[i], agent_id),
                None => None,
            },
    {
        match self.find_page(page_id) {
            Some(i) => {
                let addrs = &self.shared_pages[i].virtual_addrs;
                assert(addrs@.subrange(0, addrs@.len() as int) =~= addrs@);
                assert(self.page_addrs()[i as int] == addrs@);
                let mut k: usize = 0;
                while k < addrs.len()
                    invariant
                        k <= addrs@.len(),
                        self.page_at(page_id) == Some(i as int),
                        self.page_addrs()[i as int] == addrs@,
                        addr_for(addrs@, agent_id) == addr_for(addrs@.subrange(k as int, addrs@.len() as int), agent_id),
                    decreases addrs.len() - k,
                {
                    proof {
                        assert(addrs@.subrange(k as int, addrs@.len() as int).drop_first()
                            =~= addrs@.subrange(k as int + 1, addrs@.len() as int));
                    }
                    if addrs[k].0 == agent_id {
                        assert(addrs@.subrange(k as int, addrs@.len() as int)[0] == addrs@[k as int]);
                        return Some(addrs[k].1);
                    }
                    k = k + 1;
                }
                proof {
                    assert(addrs@.subrange(k as int, addrs@.len() as int) =~= Seq::<(u64, u64)>::empty());
                    assert(addrs@.subrange(0, addrs@.len() as int) =~= addrs@);
                }
                None
            },
            None => None,
        }
    }

    /// Moves shared page `page_id` to its next version.
    pub fn increment_version(&mut self, page_id: u64) -> (r: Result<u64, MemoryFabricError>)
        requires
            forall|i: int|
                0 <= i < old(self).pages().len() ==> (#[trigger] old(self).pages()[i]).3 < u64::MAX,
        ensures
            final(self).regions() == old(self).regions(),
            final(self).leases() == old(self).leases(),
            final(self).tags() == old(self).tags(),
            final(self).wf() == old(self).wf(),
            final(self).page_at(page_id) == old(self).page_at(page_id),
            final(self).page_addrs() == old(self).page_addrs(),
            r == match old(self).page_at(page_id) {
                Some(i) => Ok::<u64, MemoryFabricError>((old(self).pages()[i].3 + 1) as u64),
                None => Err(MemoryFabricError::InvalidRegion),
            },
            final(self).pages() == match old(self).page_at(page_id) {
                Some(i) => old(self).pages().update(
                    i,
                    (
                        old(self).pages()[i].0,
                        old(self).pages()[i].1,
                        old(self).pages()[i].2,
                        (old(self).pages()[i].3 + 1) as u64,
                    ),
                ),
                None => old(self).pages(),
            },
    {
        match self.find_page(page_id) {
            Some(i) => {
                proof {
                    lemma_page_index_found(self.shared_pages@, page_id, 0);
                    assert(self.pages()[i as int].3 < u64::MAX);
                }
                let ghost before = self.shared_pages@;
                let mut page = self.shared_pages.remove(i);
                page.version = page.version + 1;
                let v = page.version;
                self.shared_pages.insert(i, page);
                proof {
                    assert(self.shared_pages@ =~= before.update(i as int, page));
                    assert(self.pages() =~= old(self).pages().update(
                        i as int,
                        (
                            old(self).pages()[i as int].0,
                            old(self).pages()[i as int].1,
                            old(self).pages()[i as int].2,
                            v,
                        ),
                    ));
                    assert(self.page_addrs() =~= old(self).page_addrs());
                    lemma_page_index_same_ids(before, self.shared_pages@, page_id, 0);
                }
                Ok(v)
            },
            None => Err(MemoryFabricError::InvalidRegion),
        }
    }

    /// The version of shared page `page_id`, if it exists.
    pub fn get_version(&self, page_id: u64) -> (r: Option<u64>)
        ensures
            r == match self.page_at(page_id) {
                Some(i) => Some(self.pages()[i].3),
                None => None,
            },
    {
        match self.find_page(page_id) {
            Some(i) => {
                assert(self.pages()[i as int].3 == self.shared_pages@[i as int].version);
                Some(self.shared_pages[i].version)
            },
            None => None,
        }
    }

    /// Gives `agent_id` access to shared page `page_id`: unless it has
    /// access already, it gets the page at its own address, which is
    /// returned for the caller to map, and the page gains a reference.
    pub fn add_agent_to_shared_page(&mut self, page_id: u64, agent_id: u64) -> (r: Result<
        Option<u64>,
        MemoryFabricError,
    >)
        requires
            shared_addr(page_id, agent_id) <= u64::MAX,
            forall|i: int|
                0 <= i < old(self).ref_counts().len() ==> #[trigger] old(self).ref_counts()[i]
                    < u64::MAX,
        ensures
            final(self).regions() == old(self).regions(),
            final(self).leases() == old(self).leases(),
            final(self).tags() == old(self).tags(),
            final(self).wf() == old(self).wf(),
            old(self).page_at(page_id) is None ==> r == Err::<Option<u64>, MemoryFabricError>(
                MemoryFabricError::InvalidRegion,
            ) && final(self).pages() == old(self).pages(),
            old(self).page_at(page_id) matches Some(i) ==> if old(self).pages()[i].2.contains(agent_id) {
                r == Ok::<Option<u64>, MemoryFabricError>(None) && final(self).pages() == old(self).pages()
            } else {
                &&& r == Ok::<Option<u64>, MemoryFabricError>(Some(shared_addr(page_id, agent_id) as u64))
                &&& final(self).pages() == old(self).pages().update(
                    i,
                    (
                        old(self).pages()[i].0,
                        old(self).pages()[i].1,
                        old(self).pages()[i].2.push(agent_id),
                        old(self).pages()[i].3,
                    ),
                )
                &&& final(self).page_addrs() == old(self).page_addrs().update(
                    i,
                    old(self).page_addrs()[i].push((agent_id, shared_addr(page_id, agent_id) as u64)),
                )
            },
    {
        let i = match self.find_page(page_id) {
            Some(i) => i,
            None => {
                return Err(MemoryFabricError::InvalidRegion);
            },
        };
        proof {
            lemma_page_index_found(self.shared_pages@, page_id, 0);
        }
        let mut present = false;
        let mut k: usize = 0;
        while k < self.shared_pages[i].agents.len()
            invariant
                i < self.shared_pages@.len(),
                k <= self.shared_pages@[i as int].agents@.len(),
                present <==> exists|m: int|
                    0 <= m < k && self.shared_pages@[i as int].agents@[m] == agent_id,
            decreases self.shared_pages@[i as int].agents@.len() - k,
        {
            if self.shared_pages[i].agents[k] == agent_id {
                present = true;
            }
            k = k + 1;
        }
        if present {
            proof {
                let m = choose|m: int|
                    0 <= m < k && self.shared_pages@[i as int].agents@[m] == agent_id;
                assert(self.pages()[i as int].2[m] == agent_id);
            }
            return Ok(None);
        }
        let vaddr = SHARED_BASE + page_id * 4096 + agent_id * SHARED_AGENT_STRIDE;
        assert(self.ref_counts()[i as int] < u64::MAX);
        let ghost before = self.shared_pages@;
        let mut page = self.shared_pages.remove(i);
        page.virtual_addrs.push((agent_id, vaddr));
        page.agents.push(agent_id);
        page.ref_count = page.ref_count + 1;
        self.shared_pages.insert(i, page);
        proof {
            assert(self.shared_pages@ =~= before.update(i as int, page));
            assert(self.pages() =~= old(self).pages().update(
                i as int,
                (
                    old(self).pages()[i as int].0,
                    old(self).pages()[i as int].1,
                    old(self).pages()[i as int].2.push(agent_id),
                    old(self).pages()[i as int].3,
                ),
            ));
            assert(self.page_addrs() =~= old(self).page_addrs().update(
                i as int,
                old(self).page_addrs()[i as int].push((agent_id, vaddr)),
            ));
        }
        Ok(Some(vaddr))
    }
}

proof fn lemma_page_index_found(pages: Seq<SharedMemoryPage>, id: u64, i: int)
    requires
        page_index(pages, id, i) is Some,
    ensures
        i <= page_index(pages, id, i)->0 < pages.len(),
        pages[page_index(pages, id, i)->0].page_id == id,
    decreases pages.len() - i,
{
    if i >= 0 && i < pages.len() && pages[i].page_id != id {
        lemma_page_index_found(pages, id, i + 1);
    }
}

proof fn lemma_page_index_same_ids(a: Seq<SharedMemoryPage>, b: Seq<SharedMemoryPage>, id: u64, i: int)
    requires
        a.len() == b.len(),
        forall|k: int| 0 <= k < a.len() ==> (#[trigger] a[k]).page_id == b[k].page_id,
    ensures
        page_index(a, id, i) == page_index(b, id, i),
    decreases a.len() - i,
{
    if i >= 0 && i < a.len() {
        lemma_page_index_same_ids(a, b, id, i + 1);
    }
}

proof fn lemma_tag_pos(tags: Seq<(u64, MemoryTag)>, region: u64, j: int)
    requires
        0 <= j <= tags.len(),
    ensures
        0 <= tag_pos(tags, region, j) <= j,
        forall|i: int| tag_pos(tags, region, j) <= i < j ==> (#[trigger] tags[i]).0 > region,
        tag_pos(tags, region, j) > 0 ==> tags[tag_pos(tags, region, j) - 1].0 <= region,
    decreases j,
{
    if j > 0 && tags[j - 1].0 > region {
        lemma_tag_pos(tags, region, j - 1);
    }
}

/// A region never overlaps a region that was there when it was created.
pub proof fn law_created_region_is_disjoint(regions: Seq<MemoryRegion>, start: u64, size: u64, i: int)
    requires
        !overlaps_any(regions, start, size),
        0 <= i < regions.len(),
    ensures
        !collides(
            start as int,
            start + size,
            regions[i].start as int,
            regions[i].start + regions[i].size,
        ),
{
}

} // verus!
