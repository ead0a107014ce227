//! Agent memory pools: each allocation takes whole pages from a virtual
//! range reserved for agents, backs each page with a physical frame and
//! records which pages and frames belong to which agent. Installing and
//! removing the mappings in the page tables is left to the embedding code.

use vstd::prelude::*;
use crate::physical::{
    BitmapFrameAllocator, FRAME_SIZE, probe_from, cleared, marked_free, lemma_probe_found,
    law_free_undoes_allocate,
};
use crate::virtual_mem::{MapRequest, PagingState, map_page, unmap_page, page_base, PRESENT, WRITABLE, USER_ACCESSIBLE};
use crate::events::{EventType, KernelEventSystem, lemma_published_chain, lemma_published_nothing, published};

verus! {

/// Agent memory starts at 1 TiB of the virtual address space.
pub const AGENT_MEMORY_START: u64 = 0x1000_0000_0000;

/// Size of an agent memory page.
pub const AGENT_MEMORY_PAGE_SIZE: u64 = 4096;

/// The end of the canonical lower half of the virtual address space.
pub const CANONICAL_LIMIT: u64 = 0x8000_0000_0000;

/// One allocation of an agent.
pub struct AgentMemoryEntry {
    pub agent_id: u64,
    pub virtual_addr: u64,
    pub size: usize,
    pub pages: Vec<u64>,
    pub frames: Vec<u64>,
}

/// An allocation as plain values: agent, address, size, pages, frames.
pub open spec fn entry_view(e: AgentMemoryEntry) -> (u64, u64, usize, Seq<u64>, Seq<u64>) {
    (e.agent_id, e.virtual_addr, e.size, e.pages@, e.frames@)
}

/// Number of pages that hold `size` bytes.
pub open spec fn pages_for(size: int) -> int {
    (size + 4095) / 4096
}

/// The flags of agent memory pages.
pub open spec fn agent_page_flags() -> u64 {
    PRESENT | WRITABLE | USER_ACCESSIBLE
}

/// Taking up to `n` frames one after the other from an allocator whose
/// bitmap is `bits` and whose search starts at `next`: the frames taken,
/// the allocator's bitmap and search start afterwards, and whether all `n`
/// were had.
pub open spec fn frame_run(bits: Seq<u64>, next: int, total: int, first: u64, n: nat) -> (
    Seq<u64>,
    Seq<u64>,
    int,
    bool,
)
    decreases n,
{
    if n == 0 {
        (Seq::empty(), bits, next, true)
    } else {
        let (taken, b, nx, complete) = frame_run(bits, next, total, first, (n - 1) as nat);
        if !complete {
            (taken, b, nx, false)
        } else {
            match probe_from(b, nx, total, 0) {
                None => (taken, b, nx, false),
                Some(idx) => (
                    taken.push((first + idx * FRAME_SIZE) as u64),
                    cleared(b, idx),
                    (idx + 1) % total,
                    true,
                ),
            }
        }
    }
}

/// The pages of `n` pages from `addr`.
pub open spec fn page_run(addr: u64, n: int) -> Seq<u64> {
    Seq::new(n as nat, |i: int| (addr + i * 4096) as u64)
}

/// The mappings of the pages from `addr` to `frames`, one each.
pub open spec fn mappings(addr: u64, frames: Seq<u64>) -> Seq<MapRequest> {
    Seq::new(
        frames.len(),
        |i: int|
            MapRequest {
                page: (addr + i * 4096) as u64,
                frame: page_base(frames[i]),
                flags: agent_page_flags(),
            },
    )
}

/// The page starts of `pages`.
pub open spec fn page_bases(pages: Seq<u64>) -> Seq<u64> {
    pages.map_values(|p: u64| page_base(p))
}

/// What one deallocation of `frame` does to an allocator's bitmap and
/// search start.
pub open spec fn frame_freed(bits: Seq<u64>, next: int, first: u64, total: int, frame: u64) -> (
    Seq<u64>,
    int,
) {
    let idx = (frame - first) / (FRAME_SIZE as int);
    if frame >= first && idx < total {
        (marked_free(bits, idx), if idx < next { idx } else { next })
    } else {
        (bits, next)
    }
}

/// Freeing `frames` in order.
pub open spec fn frames_freed(bits: Seq<u64>, next: int, first: u64, total: int, frames: Seq<u64>) -> (
    Seq<u64>,
    int,
)
    decreases frames.len(),
{
    if frames.len() == 0 {
        (bits, next)
    } else {
        let (b, n) = frames_freed(bits, next, first, total, frames.drop_last());
        frame_freed(b, n, first, total, frames.last())
    }
}

/// Giving `frames` back in the reverse of the order they were taken, the
/// last taken first.
pub open spec fn frames_unwound(bits: Seq<u64>, next: int, first: u64, total: int, frames: Seq<u64>) -> (
    Seq<u64>,
    int,
)
    decreases frames.len(),
{
    if frames.len() == 0 {
        (bits, next)
    } else {
        let (b, n) = frame_freed(bits, next, first, total, frames.last());
        frames_unwound(b, n, first, total, frames.drop_last())
    }
}

/// The first allocation of `agent_id` at `addr`.
pub open spec fn find_entry(
    entries: Seq<(u64, u64, usize, Seq<u64>, Seq<u64>)>,
    agent_id: u64,
    addr: u64,
) -> Option<int>
    decreases entries.len(),
{
    if entries.len() == 0 {
        None
    } else {
        match find_entry(entries.drop_last(), agent_id, addr) {
            Some(i) => Some(i),
            None => if entries.last().0 == agent_id && entries.last().1 == addr {
                Some(entries.len() - 1)
            } else {
                None
            },
        }
    }
}

proof fn lemma_page_aligned(x: u64)
    requires
        x % 4096 == 0,
    ensures
        page_base(x) == x,
{
    assert(x % 4096 == 0 ==> x & !0xFFFu64 == x) by (bit_vector);
}

/// The announcements of `k` pages mapped for `agent_id` at `now`: for each
/// page, a [`EventType::Memory`] and then a [`EventType::VirtualMemory`]
/// event.
pub open spec fn page_notices(agent_id: u64, now: u64, k: nat) -> Seq<(EventType, u64, Option<u64>, Seq<u8>)> {
    Seq::new(
        2 * k,
        |i: int|
            (
                if i % 2 == 0 {
                    EventType::Memory
                } else {
                    EventType::VirtualMemory
                },
                now,
                Some(agent_id),
                Seq::<u8>::empty(),
            ),
    )
}

/// How many pages an allocation of `size` bytes maps before it ends, with
/// the frame allocator `f0` and the paging layer `paging`: one per frame it
/// gets when the paging layer is ready, else none.
pub open spec fn pages_mapped(f0: BitmapFrameAllocator, size: usize, paging: PagingState) -> nat {
    if paging.initialized && paging.has_table && paging.has_frame_allocator {
        frame_run(f0.bits(), f0.next(), f0.total(), f0.first(), pages_for(size as int) as nat).0.len()
    } else {
        0
    }
}

/// What [`AgentMemoryPool::allocate`] does: `p0`, `f0` before, `p1`, `f1`
/// after, `addr` and `maps` returned.
pub open spec fn allocated(
    p0: AgentMemoryPool,
    p1: AgentMemoryPool,
    f0: BitmapFrameAllocator,
    f1: BitmapFrameAllocator,
    agent_id: u64,
    size: usize,
    paging: PagingState,
    result_addr: Option<u64>,
    maps: Seq<MapRequest>,
) -> bool {
    &&& p1.wf()
    &&& f1.wf()
    &&& f1.total() == f0.total()
    &&& f1.first() == f0.first()
    &&& ({
        let n = pages_for(size as int);
        let start = p0.next_addr();
        let ready = paging.initialized && paging.has_table && paging.has_frame_allocator;
        let run = frame_run(
            f0.bits(),
            f0.next(),
            f0.total(),
            f0.first(),
            if ready || n == 0 { n as nat } else { 1nat },
        );
        &&& if (ready || n == 0) && run.3 {
            &&& result_addr == Some(start)
            &&& maps == mappings(start, run.0)
            &&& f1.bits() == run.1
            &&& f1.next() == run.2
            &&& p1.next_addr() == start + n * 4096
            &&& p1.entries() == p0.entries().push(
                (agent_id, start, (n * 4096) as usize, page_run(start, n), run.0),
            )
        } else {
            &&& result_addr is None
            &&& maps == Seq::<MapRequest>::empty()
            &&& (f1.bits(), f1.next()) == frames_unwound(run.1, run.2, f0.first(), f0.total(), run.0)
            &&& f1.bits() == f0.bits()
            &&& p1.next_addr() == p0.next_addr()
            &&& p1.entries() == p0.entries()
        }
    })
}

/// What [`AgentMemoryPool::deallocate`] does: `p0`, `f0` before, `p1`,
/// `f1` after, `pages` returned.
pub open spec fn deallocated(
    p0: AgentMemoryPool,
    p1: AgentMemoryPool,
    f0: BitmapFrameAllocator,
    f1: BitmapFrameAllocator,
    addr: u64,
    agent_id: u64,
    paging: PagingState,
    pages: Seq<u64>,
) -> bool {
    &&& p1.wf()
    &&& p1.next_addr() == p0.next_addr()
    &&& f1.wf()
    &&& f1.total() == f0.total()
    &&& f1.first() == f0.first()
    &&& match find_entry(p0.entries(), agent_id, addr) {
        None => {
            &&& p1.entries() == p0.entries()
            &&& f1.bits() == f0.bits()
            &&& f1.next() == f0.next()
            &&& pages == Seq::<u64>::empty()
        },
        Some(i) => {
            let e = p0.entries()[i];
            &&& p1.entries() == p0.entries().remove(i)
            &&& if paging.initialized && paging.has_table {
                let (b, n) = frames_freed(f0.bits(), f0.next(), f0.first(), f0.total(), e.4);
                &&& f1.bits() == b
                &&& f1.next() == n
                &&& pages == page_bases(e.3)
            } else {
                &&& f1.bits() == f0.bits()
                &&& f1.next() == f0.next()
                &&& pages == Seq::<u64>::empty()
            }
        },
    }
}

/// The memory pool of agents.
pub struct AgentMemoryPool {
    entries: Vec<AgentMemoryEntry>,
    next_virtual_addr: u64,
}

impl AgentMemoryPool {
    /// The allocations, oldest first.
    pub closed spec fn entries(&self) -> Seq<(u64, u64, usize, Seq<u64>, Seq<u64>)> {
        self.entries@.map_values(|e: AgentMemoryEntry| entry_view(e))
    }

    /// Where the next allocation starts.
    pub closed spec fn next_addr(&self) -> u64 {
        self.next_virtual_addr
    }

    /// The next allocation starts on a page inside the canonical agent
    /// range, and each allocation has one frame per page.
    pub closed spec fn wf(&self) -> bool {
        &&& self.next_virtual_addr % 4096 == 0
        &&& AGENT_MEMORY_START <= self.next_virtual_addr < CANONICAL_LIMIT
        &&& forall|i: int|
            0 <= i < self.entries@.len() ==> (#[trigger] self.entries@[i]).pages@.len()
                == self.entries@[i].frames@.len()
    }

    /// What the invariant says of the next allocation: it starts on a page
    /// inside the canonical agent range.
    pub proof fn lemma_wf(&self)
        requires
            self.wf(),
        ensures
            self.next_addr() % 4096 == 0,
            AGENT_MEMORY_START <= self.next_addr() < CANONICAL_LIMIT,
    {
    }

    /// Where the next allocation starts.
    pub fn next_address(&self) -> (a: u64)
        ensures
            a == self.next_addr(),
    {
        self.next_virtual_addr
    }

    pub fn new() -> (p: Self)
        ensures
            p.wf(),
            p.entries() == Seq::<(u64, u64, usize, Seq<u64>, Seq<u64>)>::empty(),
            p.next_addr() == AGENT_MEMORY_START,
    {
        let p = AgentMemoryPool { entries: Vec::new(), next_virtual_addr: AGENT_MEMORY_START };
        proof {
            assert(p.entries() =~= Seq::<(u64, u64, usize, Seq<u64>, Seq<u64>)>::empty());
        }
        p
    }

    /// Allocates `size` bytes, rounded up to whole pages, for `agent_id`:
    /// each page gets a frame from `frames` and a mapping. Returns the start
    /// address and the mappings to install. When frames run out or the
    /// paging layer refuses a mapping, the attempt is undone: the frames it
    /// took go back to `frames`, no mapping is returned, and the pool is
    /// left as it was. Each page mapped is announced on `events` at `now`.
    pub fn allocate(
        &mut self,
        agent_id: u64,
        size: usize,
        frames: &mut BitmapFrameAllocator,
        paging: PagingState,
        events: &mut Option<KernelEventSystem>,
        now: u64,
    ) -> (r: (Option<u64>, Vec<MapRequest>))
        requires
            old(self).wf(),
            old(frames).wf(),
            size + 4095 <= usize::MAX,
            old(self).next_addr() + pages_for(size as int) * 4096 < CANONICAL_LIMIT,
        ensures
            allocated(*old(self), *final(self), *old(frames), *final(frames), agent_id, size, paging, r.0, r.1@),
            published(*old(events), *final(events), page_notices(agent_id, now, pages_mapped(*old(frames), size, paging))),
    {
        let num_pages: usize = (size + 4095) / 4096;
        let aligned_size: usize = num_pages * 4096;
        let virtual_addr = self.next_virtual_addr;
        let ghost ready = paging.initialized && paging.has_table && paging.has_frame_allocator;
        let ghost bits0 = frames.bits();
        let ghost next0 = frames.next();
        let ghost total = frames.total();
        let ghost first = frames.first();
        proof {
            frames.lemma_bounds();
        }
        let mut pages: Vec<u64> = Vec::new();
        let mut taken: Vec<u64> = Vec::new();
        let mut requests: Vec<MapRequest> = Vec::new();
        let mut current: u64 = virtual_addr;
        let mut i: usize = 0;
        proof {
            lemma_published_nothing(*events);
            assert(page_notices(agent_id, now, 0) =~= Seq::empty());
        }
        while i < num_pages
            invariant
                published(*old(events), *events, page_notices(agent_id, now, i as nat)),
                self.wf(),
                *self == *old(self),
                frames.wf(),
                frames.total() == total,
                frames.first() == first,
                total == old(frames).total(),
                first == old(frames).first(),
                bits0 == old(frames).bits(),
                next0 == old(frames).next(),
                0 <= next0,
                total > 0,
                first + total * FRAME_SIZE < 0x10_0000_0000_0000,
                virtual_addr == self.next_virtual_addr,
                num_pages == pages_for(size as int),
                virtual_addr + num_pages * 4096 < CANONICAL_LIMIT,
                i <= num_pages,
                ready == (paging.initialized && paging.has_table && paging.has_frame_allocator),
                ready || i == 0,
                current == virtual_addr + i * 4096,
                ({
                    let run = frame_run(bits0, next0, total, first, i as nat);
                    &&& run.3
                    &&& taken@ == run.0
                    &&& frames.bits() == run.1
                    &&& frames.next() == run.2
                }),
                pages@ == page_run(virtual_addr, i as int),
                requests@ == mappings(virtual_addr, taken@),
                taken@.len() == i,
            decreases num_pages - i,
        {
            let frame = frames.allocate_frame();
            match frame {
                None => {
                    proof {
                        if !ready {
                            reveal_with_fuel(frame_run, 2);
                        } else {
                            lemma_run_stops(bits0, next0, total, first, i as nat + 1, num_pages as nat);
                        }
                        lemma_unwind_restores(bits0, next0, total, first, i as nat, frames.next());
                    }
                    give_back(frames, taken);
                    let empty: Vec<MapRequest> = Vec::new();
                    return (None, empty);
                },
                Some(frame_addr) => {
                    proof {
                        assert(current % 4096 == 0) by {
                            assert(virtual_addr % 4096 == 0);
                        }
                        lemma_page_aligned(current);
                    }
                    let ghost ev_before = *events;
                    let mapped = map_page(
                        current,
                        frame_addr,
                        PRESENT | WRITABLE | USER_ACCESSIBLE,
                        agent_id,
                        true,
                        paging,
                        events,
                        now,
                    );
                    match mapped {
                        Err(_) => {
                            taken.push(frame_addr);
                            proof {
                                lemma_published_chain(
                                    *old(events),
                                    ev_before,
                                    *events,
                                    page_notices(agent_id, now, 0),
                                    Seq::empty(),
                                );
                                assert(page_notices(agent_id, now, 0) + Seq::empty() =~= page_notices(agent_id, now, 0));
                                reveal_with_fuel(frame_run, 2);
                                assert(taken@ =~= frame_run(bits0, next0, total, first, 1).0);
                                        lemma_unwind_restores(bits0, next0, total, first, 1, frames.next());
                            }
                            give_back(frames, taken);
                            let empty: Vec<MapRequest> = Vec::new();
                            return (None, empty);
                        },
                        Ok(req) => {
                            let ghost before_taken = taken@;
                            let ghost before_req = requests@;
                            pages.push(current);
                            taken.push(frame_addr);
                            requests.push(req);
                            proof {
                                lemma_published_chain(
                                    *old(events),
                                    ev_before,
                                    *events,
                                    page_notices(agent_id, now, i as nat),
                                    seq![
                                        (EventType::Memory, now, Some(agent_id), Seq::<u8>::empty()),
                                        (EventType::VirtualMemory, now, Some(agent_id), Seq::<u8>::empty()),
                                    ],
                                );
                                assert(page_notices(agent_id, now, i as nat) + seq![
                                    (EventType::Memory, now, Some(agent_id), Seq::<u8>::empty()),
                                    (EventType::VirtualMemory, now, Some(agent_id), Seq::<u8>::empty()),
                                ] =~= page_notices(agent_id, now, i as nat + 1));
                                assert(pages@ =~= page_run(virtual_addr, i as int + 1));
                                assert(requests@ =~= mappings(virtual_addr, taken@));
                            }
                            current = current + 4096;
                            i = i + 1;
                        },
                    }
                },
            }
        }
        self.next_virtual_addr = current;
        let entry = AgentMemoryEntry {
            agent_id,
            virtual_addr,
            size: aligned_size,
            pages,
            frames: taken,
        };
        self.entries.push(entry);
        proof {
            assert(self.entries() =~= old(self).entries().push(
                (agent_id, virtual_addr, aligned_size, page_run(virtual_addr, num_pages as int), taken@),
            ));
        }
        (Some(virtual_addr), requests)
    }

    /// Where the first allocation of `agent_id` at `addr` is recorded.
    fn position(&self, agent_id: u64, addr: u64) -> (r: Option<usize>)
        ensures
            match find_entry(self.entries(), agent_id, addr) {
                None => r is None,
                Some(i) => r == Some(i as usize),
            },
    {
        let mut i: usize = 0;
        while i < self.entries.len()
            invariant
                i <= self.entries@.len(),
                find_entry(self.entries().subrange(0, i as int), agent_id, addr) is None,
            decreases self.entries.len() - i,
        {
            proof {
                assert(self.entries().subrange(0, i as int + 1).drop_last() =~= self.entries().subrange(
                    0,
                    i as int,
                ));
                assert(self.entries()[i as int] == entry_view(self.entries@[i as int]));
            }
            if self.entries[i].agent_id == agent_id && self.entries[i].virtual_addr == addr {
                proof {
                    assert(self.entries().subrange(0, self.entries@.len() as int) =~= self.entries());
                    lemma_find_prefix(self.entries(), agent_id, addr, i as int + 1);
                }
                return Some(i);
            }
            i = i + 1;
        }
        proof {
            assert(self.entries().subrange(0, self.entries@.len() as int) =~= self.entries());
        }
        None
    }

    /// Gives back the allocation of `agent_id` at `addr`: the record goes,
    /// and where the paging layer can unmap, each page's frame is freed and
    /// the pages to unmap are returned.
    pub fn deallocate(
        &mut self,
        addr: u64,
        agent_id: u64,
        frames: &mut BitmapFrameAllocator,
        paging: PagingState,
    ) -> (pages: Vec<u64>)
        requires
            old(self).wf(),
            old(frames).wf(),
        ensures
            deallocated(*old(self), *final(self), *old(frames), *final(frames), addr, agent_id, paging, pages@),
    {
        proof {
            lemma_find_bounds(self.entries(), agent_id, addr);
        }
        let found = self.position(agent_id, addr);
        let pos = match found {
            None => {
                return Vec::new();
            },
            Some(pos) => pos,
        };
        let ghost before = self.entries@;
        let ghost fi = find_entry(self.entries(), agent_id, addr)->0;
        assert(self.entries().len() == self.entries@.len());
        assert(fi < self.entries.len());
        let entry = self.entries.remove(pos);
        proof {
            assert(self.entries() =~= old(self).entries().remove(pos as int));
            assert(old(self).entries()[pos as int] == entry_view(before[pos as int]));
        }
        let ghost ready = paging.initialized && paging.has_table;
        let ghost b0 = frames.bits();
        let ghost n0 = frames.next();
        let ghost total = frames.total();
        let ghost first = frames.first();
        let mut out: Vec<u64> = Vec::new();
        let mut k: usize = 0;
        while k < entry.pages.len()
            invariant
                k <= entry.pages@.len(),
                entry.frames@.len() == entry.pages@.len(),
                frames.wf(),
                frames.total() == total,
                frames.first() == first,
                ready == (paging.initialized && paging.has_table),
                if ready {
                    &&& (frames.bits(), frames.next()) == frames_freed(
                        b0,
                        n0,
                        first,
                        total,
                        entry.frames@.subrange(0, k as int),
                    )
                    &&& out@ == page_bases(entry.pages@.subrange(0, k as int))
                } else {
                    &&& frames.bits() == b0
                    &&& frames.next() == n0
                    &&& out@ == Seq::<u64>::empty()
                },
            decreases entry.pages.len() - k,
        {
            proof {
                assert(entry.frames@.subrange(0, k as int + 1).drop_last() =~= entry.frames@.subrange(
                    0,
                    k as int,
                ));
            }
            match unmap_page(entry.pages[k], paging) {
                Ok(p) => {
                    frames.deallocate_frame(entry.frames[k]);
                    out.push(p);
                    proof {
                        assert(out@ =~= page_bases(entry.pages@.subrange(0, k as int + 1)));
                    }
                },
                Err(_) => {},
            }
            k = k + 1;
        }
        proof {
            assert(entry.frames@.subrange(0, entry.frames@.len() as int) =~= entry.frames@);
            assert(entry.pages@.subrange(0, entry.pages@.len() as int) =~= entry.pages@);
        }
        out
    }
}

/// Sets up the agent memory pool.
pub fn init(pool: &mut Option<AgentMemoryPool>)
    ensures
        (*final(pool)) is Some,
        (*final(pool))->0.wf(),
        (*final(pool))->0.entries() == Seq::<(u64, u64, usize, Seq<u64>, Seq<u64>)>::empty(),
        (*final(pool))->0.next_addr() == AGENT_MEMORY_START,
{
    *pool = Some(AgentMemoryPool::new());
}

/// Allocates agent memory from the pool, if it is set up; see
/// [`AgentMemoryPool::allocate`].
pub fn allocate(
    pool: &mut Option<AgentMemoryPool>,
    agent_id: u64,
    size: usize,
    frames: &mut BitmapFrameAllocator,
    paging: PagingState,
    events: &mut Option<KernelEventSystem>,
    now: u64,
) -> (r: (Option<u64>, Vec<MapRequest>))
    requires
        (*old(pool)) matches Some(p) ==> p.wf() && size + 4095 <= usize::MAX && p.next_addr()
            + pages_for(size as int) * 4096 < CANONICAL_LIMIT,
        old(frames).wf(),
    ensures
        (*final(pool)) is Some == (*old(pool)) is Some,
        (*old(pool)) is None ==> r.0 is None && r.1@.len() == 0 && *final(frames) == *old(frames)
            && *final(events) == *old(events),
        (*old(pool)) is Some ==> published(
            *old(events),
            *final(events),
            page_notices(agent_id, now, pages_mapped(*old(frames), size, paging)),
        ),
        (*old(pool)) matches Some(p) ==> allocated(
            p,
            (*final(pool))->0,
            *old(frames),
            *final(frames),
            agent_id,
            size,
            paging,
            r.0,
            r.1@,
        ),
{
    match pool {
        Some(p) => p.allocate(agent_id, size, frames, paging, events, now),
        None => (None, Vec::new()),
    }
}

/// Allocates memory for `agent_id` from the pool; see [`allocate`].
pub fn allocate_agent_memory(
    pool: &mut Option<AgentMemoryPool>,
    agent_id: u64,
    size: usize,
    frames: &mut BitmapFrameAllocator,
    paging: PagingState,
    events: &mut Option<KernelEventSystem>,
    now: u64,
) -> (r: (Option<u64>, Vec<MapRequest>))
    requires
        (*old(pool)) matches Some(p) ==> p.wf() && size + 4095 <= usize::MAX && p.next_addr()
            + pages_for(size as int) * 4096 < CANONICAL_LIMIT,
        old(frames).wf(),
    ensures
        (*final(pool)) is Some == (*old(pool)) is Some,
        (*old(pool)) is None ==> r.0 is None && r.1@.len() == 0 && *final(frames) == *old(frames)
            && *final(events) == *old(events),
        (*old(pool)) is Some ==> published(
            *old(events),
            *final(events),
            page_notices(agent_id, now, pages_mapped(*old(frames), size, paging)),
        ),
        (*old(pool)) matches Some(p) ==> allocated(
            p,
            (*final(pool))->0,
            *old(frames),
            *final(frames),
            agent_id,
            size,
            paging,
            r.0,
            r.1@,
        ),
{
    allocate(pool, agent_id, size, frames, paging, events, now)
}

/// Gives agent memory back to the pool, if it is set up; see
/// [`AgentMemoryPool::deallocate`].
pub fn deallocate(
    pool: &mut Option<AgentMemoryPool>,
    addr: u64,
    agent_id: u64,
    frames: &mut BitmapFrameAllocator,
    paging: PagingState,
) -> (pages: Vec<u64>)
    requires
        (*old(pool)) matches Some(p) ==> p.wf(),
        old(frames).wf(),
    ensures
        (*final(pool)) is Some == (*old(pool)) is Some,
        (*old(pool)) is None ==> pages@.len() == 0 && *final(frames) == *old(frames),
        (*old(pool)) matches Some(p) ==> deallocated(
            p,
            (*final(pool))->0,
            *old(frames),
            *final(frames),
            addr,
            agent_id,
            paging,
            pages@,
        ),
{
    match pool {
        Some(p) => p.deallocate(addr, agent_id, frames, paging),
        None => Vec::new(),
    }
}

/// Giving back an allocation removes exactly its record: where no record of
/// the agent sat at the address an allocation got, removing the agent's
/// record at that address from the records after the allocation gives the
/// records before it.
pub proof fn law_deallocate_undoes_allocate(
    before: Seq<(u64, u64, usize, Seq<u64>, Seq<u64>)>,
    agent_id: u64,
    addr: u64,
    record: (u64, u64, usize, Seq<u64>, Seq<u64>),
)
    requires
        record.0 == agent_id,
        record.1 == addr,
        find_entry(before, agent_id, addr) is None,
    ensures
        find_entry(before.push(record), agent_id, addr) == Some(before.len() as int),
        before.push(record).remove(before.len() as int) == before,
{
    assert(before.push(record).drop_last() =~= before);
    assert(before.push(record).remove(before.len() as int) =~= before);
}

/// Once frames run out, asking for more takes no more.
/// Gives `taken` back to `frames`, the last taken first.
fn give_back(frames: &mut BitmapFrameAllocator, taken: Vec<u64>)
    requires
        old(frames).wf(),
    ensures
        final(frames).wf(),
        final(frames).total() == old(frames).total(),
        final(frames).first() == old(frames).first(),
        (final(frames).bits(), final(frames).next()) == frames_unwound(
            old(frames).bits(),
            old(frames).next(),
            old(frames).first(),
            old(frames).total(),
            taken@,
        ),
{
    let mut rest = taken;
    while rest.len() > 0
        invariant
            frames.wf(),
            frames.total() == old(frames).total(),
            frames.first() == old(frames).first(),
            frames_unwound(frames.bits(), frames.next(), frames.first(), frames.total(), rest@)
                == frames_unwound(
                old(frames).bits(),
                old(frames).next(),
                old(frames).first(),
                old(frames).total(),
                taken@,
            ),
        decreases rest.len(),
    {
        let ghost before = rest@;
        let f = rest.pop().unwrap();
        proof {
            assert(rest@ =~= before.drop_last());
        }
        frames.deallocate_frame(f);
    }
}

/// The frames of a run, given back last first, leave the bitmap as it was
/// before the run, whatever the search start.
proof fn lemma_unwind_restores(bits: Seq<u64>, next: int, total: int, first: u64, k: nat, n: int)
    requires
        0 <= next,
        total > 0,
        first + total * 4096 < 0x10_0000_0000_0000,
    ensures
        frames_unwound(
            frame_run(bits, next, total, first, k).1,
            n,
            first,
            total,
            frame_run(bits, next, total, first, k).0,
        ).0 == bits,
        0 <= frame_run(bits, next, total, first, k).2,
    decreases k,
{
    if k > 0 {
        let prev = frame_run(bits, next, total, first, (k - 1) as nat);
        lemma_unwind_restores(bits, next, total, first, (k - 1) as nat, n);
        if prev.3 {
            match probe_from(prev.1, prev.2, total, 0) {
                None => {},
                Some(idx) => {
                    lemma_probe_found(prev.1, prev.2, total, 0);
                    law_free_undoes_allocate(prev.1, idx);
                    let run = frame_run(bits, next, total, first, k);
                    let f = (first + idx * FRAME_SIZE) as u64;
                    assert(run.0.drop_last() =~= prev.0);
                    assert(run.0.last() == f);
                    assert((f - first) / (FRAME_SIZE as int) == idx);
                    let n1 = frame_freed(run.1, n, first, total, f).1;
                    assert(frame_freed(run.1, n, first, total, f).0 == prev.1);
                    lemma_unwind_restores(bits, next, total, first, (k - 1) as nat, n1);
                },
            }
        }
    }
}

proof fn lemma_run_stops(bits: Seq<u64>, next: int, total: int, first: u64, m: nat, n: nat)
    requires
        m <= n,
        !frame_run(bits, next, total, first, m).3,
    ensures
        frame_run(bits, next, total, first, n) == frame_run(bits, next, total, first, m),
    decreases n,
{
    if n > m {
        lemma_run_stops(bits, next, total, first, m, (n - 1) as nat);
    }
}

/// What the search finds is an allocation of that agent at that address.
proof fn lemma_find_bounds(entries: Seq<(u64, u64, usize, Seq<u64>, Seq<u64>)>, agent_id: u64, addr: u64)
    ensures
        find_entry(entries, agent_id, addr) matches Some(i) ==> 0 <= i < entries.len()
            && entries[i].0 == agent_id && entries[i].1 == addr,
    decreases entries.len(),
{
    if entries.len() > 0 {
        lemma_find_bounds(entries.drop_last(), agent_id, addr);
    }
}

/// A match in a prefix is the first match of the whole.
proof fn lemma_find_prefix(
    entries: Seq<(u64, u64, usize, Seq<u64>, Seq<u64>)>,
    agent_id: u64,
    addr: u64,
    n: int,
)
    requires
        0 <= n <= entries.len(),
        find_entry(entries.subrange(0, n), agent_id, addr) is Some,
    ensures
        find_entry(entries, agent_id, addr) == find_entry(entries.subrange(0, n), agent_id, addr),
    decreases entries.len() - n,
{
    if n < entries.len() {
        assert(entries.subrange(0, n + 1).drop_last() =~= entries.subrange(0, n));
        lemma_find_prefix(entries, agent_id, addr, n + 1);
    } else {
        assert(entries.subrange(0, n) =~= entries);
    }
}

/// Two allocations one after the other, with no reset of the pool between
/// them, start on page boundaries inside agent memory, and the pages of
/// the first end before the second begins.
pub proof fn law_allocations_are_disjoint(
    p0: AgentMemoryPool,
    p1: AgentMemoryPool,
    p2: AgentMemoryPool,
    f0: BitmapFrameAllocator,
    f1: BitmapFrameAllocator,
    g1: BitmapFrameAllocator,
    g2: BitmapFrameAllocator,
    agent1: u64,
    agent2: u64,
    size1: usize,
    size2: usize,
    paging1: PagingState,
    paging2: PagingState,
    addr1: u64,
    addr2: u64,
    maps1: Seq<MapRequest>,
    maps2: Seq<MapRequest>,
)
    requires
        p0.wf(),
        allocated(p0, p1, f0, f1, agent1, size1, paging1, Some(addr1), maps1),
        allocated(p1, p2, g1, g2, agent2, size2, paging2, Some(addr2), maps2),
    ensures
        addr1 % 4096 == 0,
        addr2 % 4096 == 0,
        addr1 >= AGENT_MEMORY_START,
        addr2 >= AGENT_MEMORY_START,
        addr1 + pages_for(size1 as int) * 4096 <= addr2,
{
}

} // verus!
