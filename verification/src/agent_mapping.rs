//! Which agent owns which virtual pages: each agent has one region, and
//! every page of a region is recorded with its owner.

use vstd::prelude::*;
use std::collections::BTreeMap;

verus! {

broadcast use vstd::std_specs::btree::group_btree_axioms;

/// Size of a page in bytes.
pub const PAGE_SIZE: u64 = 4096;

/// A region of virtual memory owned by an agent, from `start` up to `end`.
#[derive(Clone, Copy, Debug)]
pub struct AgentRegion {
    pub agent_id: u64,
    pub start: u64,
    pub end: u64,
}

/// Whether `a` is one of the page addresses of the region from `start` up to
/// `end`: `start`, `start + 4096`, ... below `end`.
pub open spec fn region_page(start: u64, end: u64, a: u64) -> bool {
    start <= a < end && (a - start) % (PAGE_SIZE as int) == 0
}

/// Whether walking the pages of the region from `start` to `end` stays
/// within `u64`.
pub open spec fn region_walk_fits(start: u64, end: u64) -> bool {
    start >= end || start + PAGE_SIZE * ((end - 1 - start) / (PAGE_SIZE as int)) + PAGE_SIZE
        <= u64::MAX
}

/// `m` with every page of the region mapped to `agent`.
pub open spec fn with_region(m: Map<u64, u64>, start: u64, end: u64, agent: u64) -> Map<u64, u64> {
    Map::new(
        |a: u64| m.contains_key(a) || region_page(start, end, a),
        |a: u64|
            if region_page(start, end, a) {
                agent
            } else {
                m[a]
            },
    )
}

/// `m` without the pages of the region.
pub open spec fn without_region(m: Map<u64, u64>, start: u64, end: u64) -> Map<u64, u64> {
    Map::new(|a: u64| m.contains_key(a) && !region_page(start, end, a), |a: u64| m[a])
}

/// The owner of `address` in `m`: the entry for the address itself, or
/// else the entry for its page.
pub open spec fn owner_of(m: Map<u64, u64>, address: u64) -> Option<u64> {
    if m.contains_key(address) {
        Some(m[address])
    } else if m.contains_key(address & !0xFFFu64) {
        Some(m[address & !0xFFFu64])
    } else {
        None
    }
}

proof fn lemma_walk_step(start: u64, end: u64, addr: u64)
    requires
        start <= addr < end,
        (addr - start) % (PAGE_SIZE as int) == 0,
        region_walk_fits(start, end),
    ensures
        addr + PAGE_SIZE <= u64::MAX,
{
    let k = (addr - start) / (PAGE_SIZE as int);
    let last = (end - 1 - start) / (PAGE_SIZE as int);
    assert(addr - start == PAGE_SIZE * k);
    assert(k <= last) by (nonlinear_arith)
        requires
            addr - start == 4096 * k,
            addr - start <= end - 1 - start,
            last == (end - 1 - start) / 4096,
            k >= 0,
    ;
    assert(PAGE_SIZE * k <= PAGE_SIZE * last) by (nonlinear_arith)
        requires
            k <= last,
    ;
}

proof fn lemma_page_gap(start: u64, a: u64, addr: u64)
    requires
        start <= a < addr,
        (a - start) % (PAGE_SIZE as int) == 0,
        (addr - start) % (PAGE_SIZE as int) == 0,
    ensures
        a + PAGE_SIZE <= addr,
{
    let x = a - start;
    let y = addr - start;
    assert(x + 4096 <= y) by (nonlinear_arith)
        requires
            0 <= x < y,
            x % 4096 == 0,
            y % 4096 == 0,
    ;
}

/// Pages of agent regions and their owners.
pub struct AgentMemoryMapping {
    regions: BTreeMap<u64, AgentRegion>,
    address_map: BTreeMap<u64, u64>,
}

impl AgentMemoryMapping {
    /// The region of each agent that has one.
    pub closed spec fn regions(&self) -> Map<u64, AgentRegion> {
        self.regions@
    }

    /// The owner of each recorded page address.
    pub closed spec fn owners(&self) -> Map<u64, u64> {
        self.address_map@
    }

    pub fn new() -> (m: Self)
        ensures
            m.regions() == Map::<u64, AgentRegion>::empty(),
            m.owners() == Map::<u64, u64>::empty(),
    {
        AgentMemoryMapping { regions: BTreeMap::new(), address_map: BTreeMap::new() }
    }

    /// Records the region of `agent_id`, replacing any earlier one, and
    /// records the agent as owner of each of its pages.
    pub fn register_agent_region(&mut self, agent_id: u64, start: u64, end: u64)
        requires
            region_walk_fits(start, end),
        ensures
            final(self).regions() == old(self).regions().insert(
                agent_id,
                AgentRegion { agent_id, start, end },
            ),
            final(self).owners() == with_region(old(self).owners(), start, end, agent_id),
    {
        self.regions.insert(agent_id, AgentRegion { agent_id, start, end });
        let mut addr = start;
        while addr < end
            invariant
                region_walk_fits(start, end),
                start <= addr,
                addr == start || addr < end + PAGE_SIZE,
                (addr - start) % (PAGE_SIZE as int) == 0,
                self.regions@ == old(self).regions@.insert(
                    agent_id,
                    AgentRegion { agent_id, start, end },
                ),
                self.address_map@ == with_region(old(self).address_map@, start, addr, agent_id),
            decreases end + PAGE_SIZE - addr,
        {
            proof {
                lemma_walk_step(start, end, addr);
            }
            let ghost before = self.address_map@;
            self.address_map.insert(addr, agent_id);
            proof {
                assert forall|a: u64| region_page(start, (addr + PAGE_SIZE) as u64, a) <==> (
                region_page(start, addr, a) || a == addr) by {
                    if region_page(start, (addr + PAGE_SIZE) as u64, a) && a != addr {
                        assert((a - start) % 4096 == 0 && (addr - start) % 4096 == 0);
                    }
                }
                assert(self.address_map@ =~= with_region(
                    old(self).address_map@,
                    start,
                    (addr + PAGE_SIZE) as u64,
                    agent_id,
                ));
            }
            addr = addr + PAGE_SIZE;
        }
        proof {
            assert forall|a: u64| region_page(start, end, a) <==> region_page(start, addr, a) by {
                if region_page(start, addr, a) && a >= end {
                    lemma_page_gap(start, a, addr);
                }
            }
            assert(self.address_map@ =~= with_region(old(self).address_map@, start, end, agent_id));
        }
    }

    /// Forgets the region of `agent_id` and the owners recorded for its
    /// pages.
    pub fn unregister_agent_region(&mut self, agent_id: u64)
        requires
            old(self).regions().contains_key(agent_id) ==> region_walk_fits(
                old(self).regions()[agent_id].start,
                old(self).regions()[agent_id].end,
            ),
        ensures
            final(self).regions() == old(self).regions().remove(agent_id),
            final(self).owners() == if old(self).regions().contains_key(agent_id) {
                without_region(
                    old(self).owners(),
                    old(self).regions()[agent_id].start,
                    old(self).regions()[agent_id].end,
                )
            } else {
                old(self).owners()
            },
    {
        match self.regions.remove(&agent_id) {
            Some(region) => {
                let start = region.start;
                let end = region.end;
                let mut addr = start;
                while addr < end
                    invariant
                        region_walk_fits(start, end),
                        start <= addr,
                        addr == start || addr < end + PAGE_SIZE,
                        (addr - start) % (PAGE_SIZE as int) == 0,
                        self.regions@ == old(self).regions@.remove(agent_id),
                        self.address_map@ == without_region(old(self).address_map@, start, addr),
                    decreases end + PAGE_SIZE - addr,
                {
                    proof {
                        lemma_walk_step(start, end, addr);
                    }
                    self.address_map.remove(&addr);
                    proof {
                        assert forall|a: u64|
                            region_page(start, (addr + PAGE_SIZE) as u64, a) <==> (region_page(
                                start,
                                addr,
                                a,
                            ) || a == addr) by {
                            if region_page(start, (addr + PAGE_SIZE) as u64, a) && a != addr {
                                assert((a - start) % 4096 == 0 && (addr - start) % 4096 == 0);
                            }
                        }
                        assert(self.address_map@ =~= without_region(
                            old(self).address_map@,
                            start,
                            (addr + PAGE_SIZE) as u64,
                        ));
                    }
                    addr = addr + PAGE_SIZE;
                }
                proof {
                    assert forall|a: u64| region_page(start, end, a) <==> region_page(start, addr, a) by {
                        if region_page(start, addr, a) && a >= end {
                            lemma_page_gap(start, a, addr);
                        }
                    }
                    assert(self.address_map@ =~= without_region(old(self).address_map@, start, end));
                }
            },
            None => {},
        }
    }

    /// The agent that owns `address`: looked up by the address itself, then
    /// by the start of its page.
    pub fn get_agent_for_address(&self, address: u64) -> (r: Option<u64>)
        ensures
            r == owner_of(self.owners(), address),
    {
        match self.address_map.get(&address) {
            Some(a) => Some(*a),
            None => {
                let page_addr = address & !0xFFFu64;
                match self.address_map.get(&page_addr) {
                    Some(a) => Some(*a),
                    None => None,
                }
            },
        }
    }
}

/// After an agent registers a region, every page of it belongs to that
/// agent.
pub proof fn law_registered_pages_belong_to_agent(
    m: Map<u64, u64>,
    start: u64,
    end: u64,
    agent: u64,
    a: u64,
)
    requires
        region_page(start, end, a),
    ensures
        owner_of(with_region(m, start, end, agent), a) == Some(agent),
{
}

/// After a region is unregistered, none of its pages has a recorded owner.
pub proof fn law_unregistered_pages_have_no_owner(m: Map<u64, u64>, start: u64, end: u64, a: u64)
    requires
        region_page(start, end, a),
    ensures
        !without_region(m, start, end).contains_key(a),
{
}

/// Registering a region of `agent` over owners `m` that have none inside
/// it, and then unregistering it, leaves no owner for any address of the
/// region, and every other recorded address with its owner.
pub proof fn law_unregister_undoes_register(m: Map<u64, u64>, start: u64, end: u64, agent: u64)
    requires
        start % 4096 == 0,
        start < end,
        forall|k: u64| m.contains_key(k) ==> !(start <= k < end),
    ensures
        forall|x: u64|
            start <= x < end ==> owner_of(
                #[trigger] without_region(with_region(m, start, end, agent), start, end),
                x,
            ) is None,
        forall|y: u64|
            #![trigger m.contains_key(y)]
            m.contains_key(y) ==> owner_of(without_region(with_region(m, start, end, agent), start, end), y)
                == Some(m[y]),
{
    let r = without_region(with_region(m, start, end, agent), start, end);
    assert forall|x: u64| start <= x < end implies owner_of(r, x) is None by {
        let p = x & !0xFFFu64;
        assert((x & !0xFFFu64) <= x && (x & !0xFFFu64) >= start && (x & !0xFFFu64) % 4096 == 0)
            by (bit_vector)
            requires
                start <= x,
                start % 4096 == 0,
        ;
        assert((p - start) % 4096 == 0) by (nonlinear_arith)
            requires
                p % 4096 == 0,
                start % 4096 == 0,
                p >= start,
        ;
        assert(region_page(start, end, p));
        assert(!r.contains_key(p));
        assert(!r.contains_key(x));
    }
    assert forall|y: u64| #![trigger m.contains_key(y)] m.contains_key(y) implies owner_of(r, y) == Some(m[y]) by {
        assert(!region_page(start, end, y));
        assert(r.contains_key(y));
    }
}

} // verus!
