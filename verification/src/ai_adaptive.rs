//! Adaptive memory management in whole numbers: memory accesses per
//! agent, hot pages, locality, the working set, the next access, eviction
//! choices, prefetch requests and swap history. Access frequencies and the
//! swap decisions that rest on them are computed by the embedding code.

use vstd::prelude::*;
use crate::ai_scheduler::{push_bounded, bounded_push};
use crate::events::lemma_u64_keys_ordered;
use std::collections::BTreeSet;

verus! {

broadcast use vstd::std_specs::btree::group_btree_axioms;

/// Accesses kept per agent.
pub const MAX_ACCESS_HISTORY: usize = 10000;

/// Hot pages kept before the least recently used are dropped.
pub const MAX_HOT_PAGES: usize = 1000;

/// How many hot pages are dropped at once.
pub const HOT_PAGE_EVICTION: usize = 100;

/// Swap events kept.
pub const MAX_SWAP_HISTORY: usize = 10000;

/// Accesses within this many nanoseconds of the last are recent.
pub const RECENT_WINDOW: u64 = 1_000_000_000;

/// Accesses closer than this many bytes are near each other.
pub const SPATIAL_DISTANCE: u64 = 64 * 1024;

/// How long ahead a prefetched access is expected.
pub const PREFETCH_LEAD: u64 = 100_000_000;

/// Swap duration taken when no swapped page was accessed again.
pub const DEFAULT_SWAP_DURATION: u64 = 10_000_000_000;

/// Kind of memory access.
#[derive(Clone, Copy, PartialEq, Eq, Structural, Debug)]
pub enum AccessType {
    Read,
    Write,
    Execute,
}

/// Locality of an agent's accesses.
#[derive(Clone, Copy, PartialEq, Eq, Structural, Debug)]
pub enum LocalityPattern {
    Temporal,
    Spatial,
    Random,
}

/// How the page cache chooses what to evict.
#[derive(Clone, Copy, PartialEq, Eq, Structural, Debug)]
pub enum CachePolicy {
    LRU,
    LFU,
    Predictive,
    Adaptive,
}

/// A memory access.
#[derive(Clone, Copy, PartialEq, Eq, Structural, Debug)]
pub struct MemoryAccess {
    pub timestamp: u64,
    pub virtual_addr: u64,
    pub physical_addr: u64,
    pub access_type: AccessType,
    pub agent_id: u64,
}

/// How many of `h` lie within the recent window before `now`.
pub open spec fn recent_count(h: Seq<MemoryAccess>, now: u64) -> nat
    decreases h.len(),
{
    if h.len() == 0 {
        0
    } else {
        recent_count(h.drop_last(), now) + if now - h.last().timestamp < RECENT_WINDOW {
            1nat
        } else {
            0nat
        }
    }
}

/// The distance between two addresses.
pub open spec fn distance(a: u64, b: u64) -> int {
    if a > b {
        a - b
    } else {
        b - a
    }
}

/// How many of the steps between the first `n` accesses stay near.
pub open spec fn near_steps(h: Seq<MemoryAccess>, n: int) -> int
    decreases n,
{
    if n <= 1 {
        0
    } else {
        near_steps(h, n - 1) + if distance(h[n - 1].virtual_addr, h[n - 2].virtual_addr)
            < SPATIAL_DISTANCE {
            1int
        } else {
            0int
        }
    }
}

/// The locality of `h`, oldest first: random with fewer than ten
/// accesses; temporal when more than half lie within a second of the
/// last; spatial when more than a third of the steps among the first
/// hundred stay within 64 KiB; random otherwise.
pub open spec fn locality_of(h: Seq<MemoryAccess>) -> LocalityPattern {
    if h.len() < 10 {
        LocalityPattern::Random
    } else if recent_count(h, h.last().timestamp) > h.len() / 2 {
        LocalityPattern::Temporal
    } else if near_steps(h, if h.len() < 100 { h.len() as int } else { 100 }) > h.len() / 3 {
        LocalityPattern::Spatial
    } else {
        LocalityPattern::Random
    }
}

proof fn lemma_recent_bound(h: Seq<MemoryAccess>, now: u64)
    ensures
        recent_count(h, now) <= h.len(),
    decreases h.len(),
{
    if h.len() > 0 {
        lemma_recent_bound(h.drop_last(), now);
    }
}

/// The locality of an agent's accesses; see [`locality_of`]. Timestamps
/// do not decrease along `history`.
pub fn detect_locality(history: &Vec<MemoryAccess>) -> (p: LocalityPattern)
    requires
        forall|i: int| 0 <= i < history@.len() ==> (#[trigger] history@[i]).timestamp <= history@.last().timestamp,
    ensures
        p == locality_of(history@),
{
    let n = history.len();
    if n < 10 {
        return LocalityPattern::Random;
    }
    let now = history[n - 1].timestamp;
    let mut recent: usize = 0;
    let mut i: usize = 0;
    while i < n
        invariant
            n == history@.len(),
            n >= 10,
            now == history@.last().timestamp,
            forall|k: int| 0 <= k < history@.len() ==> (#[trigger] history@[k]).timestamp <= now,
            i <= n,
            recent == recent_count(history@.subrange(0, i as int), now),
        decreases n - i,
    {
        proof {
            assert(history@.subrange(0, i as int + 1).drop_last() =~= history@.subrange(0, i as int));
            lemma_recent_bound(history@.subrange(0, i as int), now);
        }
        if now - history[i].timestamp < RECENT_WINDOW {
            recent = recent + 1;
        }
        i = i + 1;
    }
    proof {
        assert(history@.subrange(0, n as int) =~= history@);
    }
    if recent > n / 2 {
        return LocalityPattern::Temporal;
    }
    let limit: usize = if n < 100 { n } else { 100 };
    let mut near: usize = 0;
    let mut j: usize = 1;
    while j < limit
        invariant
            n == history@.len(),
            limit <= n,
            limit == if n < 100 { n } else { 100 },
            1 <= j <= limit,
            near == near_steps(history@, j as int),
            near < j,
        decreases limit - j,
    {
        let a = history[j].virtual_addr;
        let b = history[j - 1].virtual_addr;
        let d = if a > b { a - b } else { b - a };
        if d < SPATIAL_DISTANCE {
            near = near + 1;
        }
        j = j + 1;
    }
    if near > n / 3 {
        LocalityPattern::Spatial
    } else {
        LocalityPattern::Random
    }
}

/// Whether the last three accesses of `h` are one page apart each.
pub open spec fn page_steps(h: Seq<MemoryAccess>) -> bool {
    h.len() >= 3 && distance(h[h.len() - 1].virtual_addr, h[h.len() - 2].virtual_addr) == 4096
        && distance(h[h.len() - 2].virtual_addr, h[h.len() - 3].virtual_addr) == 4096
}

/// The access expected next after `h`: when the last three are one page
/// apart each, the next page in the direction of the last step (the last
/// again where a downward scan has reached the bottom page); else the last
/// again; none with fewer than two accesses.
pub open spec fn next_access_of(h: Seq<MemoryAccess>) -> Option<u64> {
    if h.len() < 2 {
        None
    } else {
        let n = h.len();
        let last = h[n - 1].virtual_addr;
        let prev = h[n - 2].virtual_addr;
        if page_steps(h) {
            if last > prev {
                Some((last + 4096) as u64)
            } else if last >= 4096 {
                Some((last - 4096) as u64)
            } else {
                Some(last)
            }
        } else {
            Some(last)
        }
    }
}

/// The access expected next; see [`next_access_of`]. An upward scan's next
/// page is a valid address.
pub fn predict_next_access(history: &Vec<MemoryAccess>) -> (r: Option<u64>)
    requires
        page_steps(history@) && history@.last().virtual_addr > history@[history@.len() - 2].virtual_addr
            ==> history@.last().virtual_addr + 4096 <= u64::MAX,
    ensures
        r == next_access_of(history@),
{
    let n = history.len();
    if n < 2 {
        return None;
    }
    let last = history[n - 1].virtual_addr;
    if n >= 3 {
        let b = history[n - 2].virtual_addr;
        let c = history[n - 3].virtual_addr;
        let diff1 = if last > b { last - b } else { b - last };
        let diff2 = if b > c { b - c } else { c - b };
        if diff1 == 4096 && diff2 == 4096 {
            if last > b {
                return Some(last + 4096);
            } else if last >= 4096 {
                return Some(last - 4096);
            }
        }
    }
    Some(last)
}

/// The physical pages of `h`.
pub open spec fn pages_of(h: Seq<MemoryAccess>) -> Set<u64> {
    h.map_values(|a: MemoryAccess| a.physical_addr).to_set()
}

/// The working set of `h` in bytes: a page of 4 KiB per distinct physical
/// address.
pub fn working_set_size(history: &Vec<MemoryAccess>) -> (bytes: u64)
    requires
        history@.len() * 4096 <= u64::MAX,
    ensures
        bytes == pages_of(history@).len() * 4096,
{
    let mut seen: Vec<u64> = Vec::new();
    let mut i: usize = 0;
    while i < history.len()
        invariant
            i <= history@.len(),
            history@.len() * 4096 <= u64::MAX,
            seen@.no_duplicates(),
            seen@.to_set() == pages_of(history@.subrange(0, i as int)),
            seen@.len() <= i,
        decreases history.len() - i,
    {
        let p = history[i].physical_addr;
        let mut k: usize = 0;
        let mut found = false;
        while k < seen.len()
            invariant
                k <= seen@.len(),
                found == exists|m: int| 0 <= m < k && seen@[m] == p,
            decreases seen.len() - k,
        {
            if seen[k] == p {
                found = true;
            }
            k = k + 1;
        }
        proof {
            let pre = history@.subrange(0, i as int);
            let post = history@.subrange(0, i as int + 1);
            assert(post.map_values(|a: MemoryAccess| a.physical_addr) =~= pre.map_values(
                |a: MemoryAccess| a.physical_addr,
            ).push(p));
            pre.map_values(|a: MemoryAccess| a.physical_addr).lemma_push_to_set_commute(p);
        }
        if !found {
            let ghost before = seen@;
            seen.push(p);
            proof {
                before.lemma_push_to_set_commute(p);
                assert forall|x: int, y: int| 0 <= x < y < seen@.len() implies seen@[x] != seen@[y] by {
                    if y == seen@.len() - 1 {
                        assert(seen@[y] == p);
                        assert(before[x] == seen@[x]);
                    }
                }
            }
        } else {
            proof {
                assert(seen@.to_set().contains(p)) by {
                    let m = choose|m: int| 0 <= m < seen@.len() && seen@[m] == p;
                    assert(seen@.contains(p));
                }
                assert(seen@.to_set().insert(p) =~= seen@.to_set());
            }
        }
        i = i + 1;
    }
    proof {
        assert(history@.subrange(0, history@.len() as int) =~= history@);
        seen@.unique_seq_to_set();
    }
    (seen.len() as u64) * 4096
}

/// The accesses of all agents, agent after agent.
pub open spec fn flatten(histories: Seq<(u64, Seq<MemoryAccess>)>) -> Seq<MemoryAccess>
    decreases histories.len(),
{
    if histories.len() == 0 {
        Seq::empty()
    } else {
        flatten(histories.drop_last()) + histories.last().1
    }
}

/// The latest time `page` was accessed in `h`, if it was.
pub open spec fn last_use(h: Seq<MemoryAccess>, page: u64) -> Option<u64>
    decreases h.len(),
{
    if h.len() == 0 {
        None
    } else {
        let rest = last_use(h.drop_last(), page);
        let a = h.last();
        if a.physical_addr != page {
            rest
        } else {
            match rest {
                None => Some(a.timestamp),
                Some(t) => if a.timestamp > t {
                    Some(a.timestamp)
                } else {
                    Some(t)
                },
            }
        }
    }
}

/// The latest time `page` was accessed in `h`; 0 when it never was.
pub open spec fn recency(h: Seq<MemoryAccess>, page: u64) -> u64 {
    match last_use(h, page) {
        Some(t) => t,
        None => 0,
    }
}

/// How often `page` was accessed in `h`.
pub open spec fn access_count(h: Seq<MemoryAccess>, page: u64) -> nat
    decreases h.len(),
{
    if h.len() == 0 {
        0
    } else {
        access_count(h.drop_last(), page) + if h.last().physical_addr == page {
            1nat
        } else {
            0nat
        }
    }
}

/// Whether page `a` was used less recently than page `b` in `h`, the
/// lower address first among equals.
pub open spec fn colder(h: Seq<MemoryAccess>, a: u64, b: u64) -> bool {
    recency(h, a) < recency(h, b) || (recency(h, a) == recency(h, b) && a <= b)
}

/// Memory accesses of each agent and the pages in use system-wide.
pub struct MemoryPatternAnalyzer {
    histories: Vec<(u64, Vec<MemoryAccess>)>,
    hot_pages: BTreeSet<u64>,
}

impl MemoryPatternAnalyzer {
    /// Each agent with its accesses, oldest first; agents in the order
    /// they first accessed memory.
    pub closed spec fn histories(&self) -> Seq<(u64, Seq<MemoryAccess>)> {
        self.histories@.map_values(|e: (u64, Vec<MemoryAccess>)| (e.0, e.1@))
    }

    /// All accesses kept.
    pub open spec fn accesses(&self) -> Seq<MemoryAccess> {
        flatten(self.histories())
    }

    /// The hot pages.
    pub closed spec fn hot(&self) -> Set<u64> {
        self.hot_pages@
    }

    /// Each agent has one history, and hot pages are listed once and are
    /// no more than the limit.
    pub closed spec fn wf(&self) -> bool {
        &&& self.hot_pages@.finite()
        &&& self.hot_pages@.len() <= MAX_HOT_PAGES
        &&& forall|i: int, j: int|
            0 <= i < j < self.histories@.len() ==> (#[trigger] self.histories@[i]).0 != (
            #[trigger] self.histories@[j]).0
    }

    pub fn new() -> (a: Self)
        ensures
            a.wf(),
            a.histories() == Seq::<(u64, Seq<MemoryAccess>)>::empty(),
            a.hot() == Set::<u64>::empty(),
    {
        let a = MemoryPatternAnalyzer { histories: Vec::new(), hot_pages: BTreeSet::new() };
        proof {
            assert(a.histories() =~= Seq::<(u64, Seq<MemoryAccess>)>::empty());
            assert(a.hot() =~= Set::<u64>::empty());
        }
        a
    }

    /// Whether `page` is hot.
    pub fn is_hot_page(&self, page: u64) -> (r: bool)
        ensures
            r == self.hot().contains(page),
    {
        proof {
            lemma_u64_keys_ordered();
        }
        self.hot_pages.contains(&page)
    }

    /// Records `access`: it joins its agent's history, which keeps the
    /// last ten thousand, and its page becomes hot; past a thousand hot
    /// pages the hundred least recently used go.
    pub fn record_access(&mut self, access: MemoryAccess)
        requires
            old(self).wf(),
        ensures
            final(self).wf(),
            final(self).histories() == recorded(old(self).histories(), access),
            cooled(final(self).accesses(), old(self).hot().insert(access.physical_addr), final(self).hot()),
    {
        let mut k: usize = 0;
        let mut slot: Option<usize> = None;
        while k < self.histories.len()
            invariant_except_break
                slot is None,
                agent_slot(self.histories().subrange(0, k as int), access.agent_id) is None,
            invariant
                k <= self.histories@.len(),
                *self == *old(self),
            ensures
                match slot {
                    None => agent_slot(
                        self.histories().subrange(0, self.histories@.len() as int),
                        access.agent_id,
                    ) is None,
                    Some(i) => i < self.histories@.len() && agent_slot(
                        self.histories().subrange(0, i as int + 1),
                        access.agent_id,
                    ) == Some(i as int),
                },
            decreases self.histories.len() - k,
        {
            proof {
                assert(self.histories().subrange(0, k as int + 1).drop_last() =~= self.histories().subrange(
                    0,
                    k as int,
                ));
                assert(self.histories()[k as int].0 == self.histories@[k as int].0);
            }
            if self.histories[k].0 == access.agent_id {
                slot = Some(k);
                break;
            }
            k = k + 1;
        }
        proof {
            lemma_slot_bounds(self.histories(), access.agent_id);
        }
        match slot {
            Some(i) => {
                proof {
                    lemma_slot_prefix(self.histories(), access.agent_id, i as int + 1);
                }
                let ghost before = self.histories@;
                let mut entry = self.histories.remove(i);
                push_bounded(&mut entry.1, access, MAX_ACCESS_HISTORY);
                self.histories.insert(i, entry);
                proof {
                    assert(self.histories() =~= recorded(old(self).histories(), access));
                    assert forall|a: int, b: int|
                        0 <= a < b < self.histories@.len() implies (
                    #[trigger] self.histories@[a]).0 != (#[trigger] self.histories@[b]).0 by {
                        assert(self.histories@[a].0 == before[a].0);
                        assert(self.histories@[b].0 == before[b].0);
                    }
                }
            },
            None => {
                proof {
                    assert(self.histories().subrange(0, self.histories@.len() as int) =~= self.histories());
                }
                let mut h: Vec<MemoryAccess> = Vec::new();
                h.push(access);
                let ghost before = self.histories@;
                self.histories.push((access.agent_id, h));
                proof {
                    assert(self.histories() =~= recorded(old(self).histories(), access));
                    assert forall|a: int, b: int|
                        0 <= a < b < self.histories@.len() implies (
                    #[trigger] self.histories@[a]).0 != (#[trigger] self.histories@[b]).0 by {
                        if b == self.histories@.len() - 1 {
                            assert(old(self).histories()[a].0 == before[a].0);
                        }
                    }
                }
            },
        }
        self.make_hot(access.physical_addr);
    }

    fn make_hot(&mut self, page: u64)
        requires
            old(self).wf(),
        ensures
            final(self).wf(),
            final(self).histories() == old(self).histories(),
            cooled(final(self).accesses(), old(self).hot().insert(page), final(self).hot()),
    {
        proof {
            lemma_u64_keys_ordered();
        }
        let ghost h = self.accesses();
        let ghost all = self.hot().insert(page);
        self.hot_pages.insert(page);
        if self.hot_pages.len() <= MAX_HOT_PAGES {
            proof {
                assert(all.difference(self.hot()) =~= Set::<u64>::empty());
            }
            return;
        }
        let mut pages = hot_page_list(&self.hot_pages);
        proof {
            pages@.unique_seq_to_set();
        }
        let mut times: Vec<u64> = Vec::new();
        let mut i: usize = 0;
        while i < pages.len()
            invariant
                i <= pages@.len(),
                times@.len() == i,
                h == self.accesses(),
                forall|j: int| 0 <= j < i ==> #[trigger] times@[j] == recency(h, pages@[j]),
            decreases pages.len() - i,
        {
            let t = match self.get_last_access_time(pages[i]) {
                Some(t) => t,
                None => 0,
            };
            times.push(t);
            i = i + 1;
        }
        let ghost mut removed: Set<u64> = Set::empty();
        let mut n: usize = 0;
        while n < HOT_PAGE_EVICTION
            invariant
                n <= HOT_PAGE_EVICTION,
                h == self.accesses(),
                self.histories() == old(self).histories(),
                self.histories@ == old(self).histories@,
                pages@.no_duplicates(),
                self.hot_pages@ == pages@.to_set(),
                pages@.len() + n == all.len(),
                all.len() == MAX_HOT_PAGES + 1,
                all.finite(),
                times@.len() == pages@.len(),
                forall|j: int| 0 <= j < times@.len() ==> #[trigger] times@[j] == recency(h, pages@[j]),
                removed.finite(),
                removed.len() == n,
                removed.disjoint(pages@.to_set()),
                removed + pages@.to_set() == all,
                forall|r: u64, k: u64|
                    removed.contains(r) && pages@.to_set().contains(k) ==> colder(h, r, k),
            decreases HOT_PAGE_EVICTION - n,
        {
            let mut best: usize = 0;
            let mut j: usize = 1;
            while j < pages.len()
                invariant
                    1 <= j <= pages@.len(),
                    best < pages@.len(),
                    times@.len() == pages@.len(),
                    forall|x: int|
                        0 <= x < j ==> times@[best as int] < times@[x] || (times@[best as int]
                            == times@[x] && pages@[best as int] <= pages@[x]),
                decreases pages.len() - j,
            {
                if times[j] < times[best] || (times[j] == times[best] && pages[j] < pages[best]) {
                    best = j;
                }
                j = j + 1;
            }
            let ghost before = pages@;
            let ghost m = before[best as int];
            proof {
                assert forall|k: u64| #[trigger] before.to_set().contains(k) implies colder(h, m, k) by {
                    let x = choose|x: int| 0 <= x < before.len() && before[x] == k;
                    assert(times@[x] == recency(h, before[x]));
                }
                lemma_remove_to_set(before, best as int);
            }
            let evicted = pages.remove(best);
            times.remove(best);
            proof {
                lemma_u64_keys_ordered();
            }
            self.hot_pages.remove(&evicted);
            proof {
                assert(!removed.contains(m));
                removed = removed.insert(m);
                assert forall|j: int| 0 <= j < times@.len() implies #[trigger] times@[j] == recency(
                    h,
                    pages@[j],
                ) by {
                    if j >= best {
                        assert(pages@[j] == before[j + 1]);
                    }
                }
                assert(removed + pages@.to_set() =~= all);
                assert(removed.disjoint(pages@.to_set()));
            }
            n = n + 1;
        }
        proof {
            pages@.unique_seq_to_set();
            assert(all.difference(self.hot()) =~= removed);
            assert(self.hot().subset_of(all));
        }
    }

    /// A copy of the history of `agent_id`, oldest first.
    pub fn history(&self, agent_id: u64) -> (r: Vec<MemoryAccess>)
        ensures
            r@ == history_of(self.histories(), agent_id),
    {
        let mut k: usize = 0;
        while k < self.histories.len()
            invariant
                k <= self.histories@.len(),
                agent_slot(self.histories().subrange(0, k as int), agent_id) is None,
            decreases self.histories.len() - k,
        {
            proof {
                assert(self.histories().subrange(0, k as int + 1).drop_last() =~= self.histories().subrange(
                    0,
                    k as int,
                ));
                assert(self.histories()[k as int] == (self.histories@[k as int].0, self.histories@[k as int].1@));
            }
            if self.histories[k].0 == agent_id {
                proof {
                    lemma_slot_prefix(self.histories(), agent_id, k as int + 1);
                }
                let h = &self.histories[k].1;
                let mut r: Vec<MemoryAccess> = Vec::new();
                let mut j: usize = 0;
                while j < h.len()
                    invariant
                        j <= h@.len(),
                        r@ == h@.subrange(0, j as int),
                    decreases h.len() - j,
                {
                    r.push(h[j]);
                    j = j + 1;
                }
                assert(r@ =~= h@);
                return r;
            }
            k = k + 1;
        }
        proof {
            assert(self.histories().subrange(0, self.histories@.len() as int) =~= self.histories());
        }
        Vec::new()
    }

    /// The latest time `page` was accessed, if it was.
    pub fn get_last_access_time(&self, page: u64) -> (r: Option<u64>)
        ensures
            r == last_use(self.accesses(), page),
    {
        let mut latest: Option<u64> = None;
        let mut k: usize = 0;
        proof {
            assert(self.histories().subrange(0, 0) =~= Seq::<(u64, Seq<MemoryAccess>)>::empty());
        }
        while k < self.histories.len()
            invariant
                k <= self.histories@.len(),
                latest == last_use(flatten(self.histories().subrange(0, k as int)), page),
            decreases self.histories.len() - k,
        {
            let h = &self.histories[k].1;
            let ghost done = flatten(self.histories().subrange(0, k as int));
            proof {
                assert(self.histories()[k as int].1 == h@);
                assert(done + h@.subrange(0, 0) =~= done);
            }
            let mut j: usize = 0;
            while j < h.len()
                invariant
                    j <= h@.len(),
                    latest == last_use(done + h@.subrange(0, j as int), page),
                decreases h.len() - j,
            {
                proof {
                    assert((done + h@.subrange(0, j as int + 1)).drop_last() =~= done + h@.subrange(
                        0,
                        j as int,
                    ));
                }
                let a = h[j];
                if a.physical_addr == page {
                    latest = match latest {
                        None => Some(a.timestamp),
                        Some(t) => if a.timestamp > t {
                            Some(a.timestamp)
                        } else {
                            Some(t)
                        },
                    };
                }
                j = j + 1;
            }
            proof {
                assert(self.histories().subrange(0, k as int + 1).drop_last() =~= self.histories().subrange(
                    0,
                    k as int,
                ));
                assert(h@.subrange(0, h@.len() as int) =~= h@);
            }
            k = k + 1;
        }
        proof {
            assert(self.histories().subrange(0, self.histories@.len() as int) =~= self.histories());
        }
        latest
    }

    /// How often `page` was accessed.
    pub fn get_access_count(&self, page: u64) -> (r: u64)
        requires
            self.accesses().len() <= u64::MAX,
        ensures
            r == access_count(self.accesses(), page),
    {
        let mut count: u64 = 0;
        let mut k: usize = 0;
        proof {
            assert(self.histories().subrange(0, 0) =~= Seq::<(u64, Seq<MemoryAccess>)>::empty());
        }
        while k < self.histories.len()
            invariant
                k <= self.histories@.len(),
                self.accesses().len() <= u64::MAX,
                count == access_count(flatten(self.histories().subrange(0, k as int)), page),
                count <= flatten(self.histories().subrange(0, k as int)).len(),
            decreases self.histories.len() - k,
        {
            let h = &self.histories[k].1;
            let ghost done = flatten(self.histories().subrange(0, k as int));
            proof {
                assert(self.histories()[k as int].1 == h@);
                assert(done + h@.subrange(0, 0) =~= done);
                assert(self.histories().subrange(0, k as int + 1).drop_last() =~= self.histories().subrange(
                    0,
                    k as int,
                ));
                lemma_flatten_prefix(self.histories(), k as int + 1);
            }
            let mut j: usize = 0;
            while j < h.len()
                invariant
                    j <= h@.len(),
                    done.len() + h@.len() <= u64::MAX,
                    count == access_count(done + h@.subrange(0, j as int), page),
                    count <= done.len() + j,
                decreases h.len() - j,
            {
                proof {
                    assert((done + h@.subrange(0, j as int + 1)).drop_last() =~= done + h@.subrange(
                        0,
                        j as int,
                    ));
                }
                if h[j].physical_addr == page {
                    count = count + 1;
                }
                j = j + 1;
            }
            proof {
                assert(h@.subrange(0, h@.len() as int) =~= h@);
            }
            k = k + 1;
        }
        proof {
            assert(self.histories().subrange(0, self.histories@.len() as int) =~= self.histories());
        }
        count
    }
}

/// The position of `agent`'s history, if it has one.
pub open spec fn agent_slot(histories: Seq<(u64, Seq<MemoryAccess>)>, agent: u64) -> Option<int>
    decreases histories.len(),
{
    if histories.len() == 0 {
        None
    } else {
        match agent_slot(histories.drop_last(), agent) {
            Some(i) => Some(i),
            None => if histories.last().0 == agent {
                Some(histories.len() - 1)
            } else {
                None
            },
        }
    }
}

/// The histories after `access` is recorded: it joins its agent's
/// history, which keeps the last ten thousand, or starts one.
pub open spec fn recorded(histories: Seq<(u64, Seq<MemoryAccess>)>, access: MemoryAccess) -> Seq<
    (u64, Seq<MemoryAccess>),
> {
    match agent_slot(histories, access.agent_id) {
        Some(i) => histories.update(
            i,
            (access.agent_id, bounded_push(histories[i].1, access, MAX_ACCESS_HISTORY as int)),
        ),
        None => histories.push((access.agent_id, seq![access])),
    }
}

/// The history of `agent`, empty when it has none.
pub open spec fn history_of(histories: Seq<(u64, Seq<MemoryAccess>)>, agent: u64) -> Seq<MemoryAccess> {
    match agent_slot(histories, agent) {
        Some(i) => histories[i].1,
        None => Seq::empty(),
    }
}

/// Whether `after` is `hot` less its coldest pages in `h`: all of `hot`
/// while it is within the limit, else all but a hundred, each of which is
/// colder than every page kept.
pub open spec fn cooled(h: Seq<MemoryAccess>, hot: Set<u64>, after: Set<u64>) -> bool {
    if hot.len() <= MAX_HOT_PAGES {
        after == hot
    } else {
        &&& after.subset_of(hot)
        &&& hot.difference(after).len() == HOT_PAGE_EVICTION
        &&& forall|r: u64, k: u64|
            hot.difference(after).contains(r) && after.contains(k) ==> colder(h, r, k)
    }
}

proof fn lemma_slot_bounds(histories: Seq<(u64, Seq<MemoryAccess>)>, agent: u64)
    ensures
        agent_slot(histories, agent) matches Some(i) ==> 0 <= i < histories.len() && histories[i].0
            == agent,
        agent_slot(histories, agent) is None ==> forall|i: int|
            0 <= i < histories.len() ==> (#[trigger] histories[i]).0 != agent,
    decreases histories.len(),
{
    if histories.len() > 0 {
        lemma_slot_bounds(histories.drop_last(), agent);
        assert forall|i: int| 0 <= i < histories.len() - 1 implies histories[i] == histories.drop_last()[i] by {}
    }
}

/// The pages of `set`, each once, in increasing order.
fn hot_page_list(set: &BTreeSet<u64>) -> (pages: Vec<u64>)
    ensures
        pages@.no_duplicates(),
        pages@.to_set() == set@,
{
    proof {
        lemma_u64_keys_ordered();
    }
    let mut pages: Vec<u64> = Vec::new();
    let entries = set.iter();
    let ghost all = vstd::std_specs::iter::IteratorSpec::remaining(&entries);
    proof {
        let v = vstd::std_specs::iter::IteratorSpec::remaining(
            &vstd::std_specs::btree::spec_btree_keys_iter(set),
        );
        assert(all == v);
    }
    for p in it: entries
        invariant
            it.seq() == all,
            pages@ == all.take(it.index()).map_values(|q: &u64| *q),
    {
        let ghost before = pages@;
        pages.push(*p);
        proof {
            assert(all.take(it.index() + 1).map_values(|q: &u64| *q) =~= before.push(*p));
        }
    }
    proof {
        assert(all.take(all.len() as int) =~= all);
        assert(pages@ =~= all.unref());
        assert forall|a: int, b: int| 0 <= a < b < pages@.len() implies pages@[a] != pages@[b] by {
            assert(all[a] != all[b]);
        }
    }
    pages
}

proof fn lemma_remove_to_set(s: Seq<u64>, i: int)
    requires
        s.no_duplicates(),
        0 <= i < s.len(),
    ensures
        s.remove(i).to_set() == s.to_set().remove(s[i]),
        s.remove(i).no_duplicates(),
{
    let t = s.remove(i);
    assert forall|x: u64| t.to_set().contains(x) <==> s.to_set().remove(s[i]).contains(x) by {
        if t.contains(x) {
            let k = choose|k: int| 0 <= k < t.len() && t[k] == x;
            if k < i {
                assert(s[k] == x);
            } else {
                assert(s[k + 1] == x);
            }
            assert(s.contains(x));
        }
        if s.contains(x) && x != s[i] {
            let k = choose|k: int| 0 <= k < s.len() && s[k] == x;
            if k < i {
                assert(t[k] == x);
            } else {
                assert(t[k - 1] == x);
            }
            assert(t.contains(x));
        }
    }
    assert(t.to_set() =~= s.to_set().remove(s[i]));
    assert forall|a: int, b: int| 0 <= a < b < t.len() implies t[a] != t[b] by {
        let sa = if a < i { a } else { a + 1 };
        let sb = if b < i { b } else { b + 1 };
        assert(t[a] == s[sa]);
        assert(t[b] == s[sb]);
    }
}

/// A match in a prefix is the first match of the whole.
proof fn lemma_slot_prefix(histories: Seq<(u64, Seq<MemoryAccess>)>, agent: u64, n: int)
    requires
        0 <= n <= histories.len(),
        agent_slot(histories.subrange(0, n), agent) is Some,
    ensures
        agent_slot(histories, agent) == agent_slot(histories.subrange(0, n), agent),
    decreases histories.len() - n,
{
    if n < histories.len() {
        assert(histories.subrange(0, n + 1).drop_last() =~= histories.subrange(0, n));
        lemma_slot_prefix(histories, agent, n + 1);
    } else {
        assert(histories.subrange(0, n) =~= histories);
    }
}

/// The accesses of a prefix of the agents are no more than all./// The accesses of a prefix of the agents are no more than all.
proof fn lemma_flatten_prefix(histories: Seq<(u64, Seq<MemoryAccess>)>, n: int)
    requires
        0 <= n <= histories.len(),
    ensures
        flatten(histories.subrange(0, n)).len() <= flatten(histories).len(),
    decreases histories.len() - n,
{
    if n < histories.len() {
        lemma_flatten_prefix(histories, n + 1);
        assert(histories.subrange(0, n + 1).drop_last() =~= histories.subrange(0, n));
    } else {
        assert(histories.subrange(0, n) =~= histories);
    }
}
/// A page the cache may fetch ahead of use.
#[derive(Clone, Copy, PartialEq, Eq, Structural, Debug)]
pub struct PrefetchRequest {
    pub agent_id: u64,
    pub virtual_addr: u64,
    pub priority: u32,
    pub predicted_access_time: u64,
}

/// The least recently used of `cands` in `h`: a candidate never accessed
/// at once, else the first with the earliest last access before `best_time`.
pub open spec fn lru_scan(cands: Seq<u64>, h: Seq<MemoryAccess>, best: Option<u64>, best_time: u64) -> Option<
    u64,
>
    decreases cands.len(),
{
    if cands.len() == 0 {
        best
    } else {
        let c = cands[0];
        match last_use(h, c) {
            None => Some(c),
            Some(t) => if t < best_time {
                lru_scan(cands.drop_first(), h, Some(c), t)
            } else {
                lru_scan(cands.drop_first(), h, best, best_time)
            },
        }
    }
}

/// The least frequently used of `cands` in `h`: the first with the fewest
/// accesses below `best_count`.
pub open spec fn lfu_scan(cands: Seq<u64>, h: Seq<MemoryAccess>, best: Option<u64>, best_count: int) -> Option<
    u64,
>
    decreases cands.len(),
{
    if cands.len() == 0 {
        best
    } else {
        let c = cands[0];
        if access_count(h, c) < best_count {
            lfu_scan(cands.drop_first(), h, Some(c), access_count(h, c) as int)
        } else {
            lfu_scan(cands.drop_first(), h, best, best_count)
        }
    }
}

/// The first of `cands` that is not hot, else the first.
pub open spec fn first_cold(cands: Seq<u64>, hot: Set<u64>) -> Option<u64>
    decreases cands.len(),
{
    if cands.len() == 0 {
        None
    } else if !hot.contains(cands[0]) {
        Some(cands[0])
    } else {
        match first_cold(cands.drop_first(), hot) {
            Some(c) => Some(c),
            None => None,
        }
    }
}

/// The page to evict from `cands` under `policy`.
pub open spec fn eviction_choice(
    policy: CachePolicy,
    cands: Seq<u64>,
    h: Seq<MemoryAccess>,
    hot: Set<u64>,
) -> Option<u64> {
    match policy {
        CachePolicy::LRU => lru_scan(cands, h, None, u64::MAX),
        CachePolicy::LFU => lfu_scan(cands, h, None, u64::MAX as int),
        _ => match first_cold(cands, hot) {
            Some(c) => Some(c),
            None => if cands.len() > 0 {
                Some(cands[0])
            } else {
                None
            },
        },
    }
}

/// `queue` with `r` after every request of the same or a higher priority
/// and before every request of a lower one.
pub open spec fn enqueued(queue: Seq<PrefetchRequest>, r: PrefetchRequest, pos: int) -> bool {
    &&& 0 <= pos <= queue.len()
    &&& forall|i: int| 0 <= i < pos ==> (#[trigger] queue[i]).priority >= r.priority
    &&& forall|i: int| pos <= i < queue.len() ==> (#[trigger] queue[i]).priority < r.priority
}

/// The page cache: memory access patterns, the eviction policy and the
/// prefetch queue, highest priority first.
pub struct AICacheManager {
    pub analyzer: MemoryPatternAnalyzer,
    pub cache_policy: CachePolicy,
    pub prefetch_queue: Vec<PrefetchRequest>,
}

impl AICacheManager {
    /// The queued prefetch requests.
    pub closed spec fn queue(&self) -> Seq<PrefetchRequest> {
        self.prefetch_queue@
    }

    /// The queue is in order of decreasing priority.
    pub closed spec fn wf(&self) -> bool {
        forall|i: int, j: int|
            0 <= i <= j < self.prefetch_queue@.len() ==> (#[trigger] self.prefetch_queue@[i]).priority
                >= (#[trigger] self.prefetch_queue@[j]).priority
    }

    /// A cache manager over `analyzer` with the adaptive policy.
    pub fn new(analyzer: MemoryPatternAnalyzer) -> (m: Self)
        ensures
            m.wf(),
            m.analyzer == analyzer,
            m.cache_policy == CachePolicy::Adaptive,
            m.queue() == Seq::<PrefetchRequest>::empty(),
    {
        AICacheManager { analyzer, cache_policy: CachePolicy::Adaptive, prefetch_queue: Vec::new() }
    }

    /// Queues a prefetch of the access `predicted` for `agent_id`, due
    /// shortly after `now`, by priority; nothing without a prediction.
    pub fn request_prefetch(&mut self, agent_id: u64, priority: u32, predicted: Option<u64>, now: u64)
        requires
            old(self).wf(),
            now + PREFETCH_LEAD <= u64::MAX,
        ensures
            final(self).wf(),
            final(self).analyzer == old(self).analyzer,
            final(self).cache_policy == old(self).cache_policy,
            predicted is None ==> final(self).queue() == old(self).queue(),
            predicted matches Some(addr) ==> {
                let r = PrefetchRequest {
                    agent_id,
                    virtual_addr: addr,
                    priority,
                    predicted_access_time: (now + PREFETCH_LEAD) as u64,
                };
                exists|pos: int|
                    #![trigger old(self).queue().insert(pos, r)]
                    enqueued(old(self).queue(), r, pos) && final(self).queue() == old(self).queue().insert(pos, r)
            },
    {
        let addr = match predicted {
            None => {
                return;
            },
            Some(a) => a,
        };
        let request = PrefetchRequest {
            agent_id,
            virtual_addr: addr,
            priority,
            predicted_access_time: now + PREFETCH_LEAD,
        };
        let mut pos: usize = 0;
        while pos < self.prefetch_queue.len()
            invariant_except_break
                pos <= self.prefetch_queue@.len(),
                forall|i: int| 0 <= i < pos ==> (#[trigger] self.prefetch_queue@[i]).priority >= priority,
            invariant
                *self == *old(self),
                request.priority == priority,
                forall|i: int, j: int|
                    0 <= i <= j < self.prefetch_queue@.len() ==> (#[trigger] self.prefetch_queue@[i]).priority
                        >= (#[trigger] self.prefetch_queue@[j]).priority,
            ensures
                enqueued(self.prefetch_queue@, request, pos as int),
            decreases self.prefetch_queue.len() - pos,
        {
            if self.prefetch_queue[pos].priority < priority {
                break;
            }
            pos = pos + 1;
        }
        let ghost before = self.prefetch_queue@;
        self.prefetch_queue.insert(pos, request);
        proof {
            assert(self.queue() == old(self).queue().insert(pos as int, request));
            assert forall|i: int, j: int| 0 <= i <= j < self.prefetch_queue@.len() implies (
            #[trigger] self.prefetch_queue@[i]).priority >= (#[trigger] self.prefetch_queue@[j]).priority by {
                if i < pos && j > pos {
                    assert(self.prefetch_queue@[j] == before[j - 1]);
                } else if i > pos {
                    assert(self.prefetch_queue@[i] == before[i - 1]);
                    assert(self.prefetch_queue@[j] == before[j - 1]);
                }
            }
        }
    }

    /// Takes the request at the head of the queue, the one of highest
    /// priority (the earliest queued among equals), if any.
    pub fn get_prefetch_request(&mut self) -> (r: Option<PrefetchRequest>)
        requires
            old(self).wf(),
        ensures
            final(self).wf(),
            final(self).analyzer == old(self).analyzer,
            final(self).cache_policy == old(self).cache_policy,
            old(self).queue().len() == 0 ==> r is None && final(self).queue() == old(self).queue(),
            old(self).queue().len() > 0 ==> r == Some(old(self).queue()[0]) && final(self).queue()
                == old(self).queue().drop_first(),
    {
        if self.prefetch_queue.len() == 0 {
            return None;
        }
        let r = self.prefetch_queue.remove(0);
        proof {
            assert(self.prefetch_queue@ =~= old(self).prefetch_queue@.drop_first());
            assert forall|i: int, j: int| 0 <= i <= j < self.prefetch_queue@.len() implies (
            #[trigger] self.prefetch_queue@[i]).priority >= (#[trigger] self.prefetch_queue@[j]).priority by {
                assert(self.prefetch_queue@[i] == old(self).prefetch_queue@[i + 1]);
                assert(self.prefetch_queue@[j] == old(self).prefetch_queue@[j + 1]);
            }
        }
        Some(r)
    }

    /// The page to evict among `candidates` under the cache's policy; see
    /// [`eviction_choice`].
    pub fn decide_eviction(&self, candidates: &Vec<u64>) -> (r: Option<u64>)
        requires
            self.analyzer.accesses().len() <= u64::MAX,
        ensures
            r == eviction_choice(
                self.cache_policy,
                candidates@,
                self.analyzer.accesses(),
                self.analyzer.hot(),
            ),
    {
        let ghost h = self.analyzer.accesses();
        proof {
            assert(candidates@.skip(0) =~= candidates@);
        }
        match self.cache_policy {
            CachePolicy::LRU => {
                let mut best: Option<u64> = None;
                let mut best_time: u64 = u64::MAX;
                let mut i: usize = 0;
                while i < candidates.len()
                    invariant
                        i <= candidates@.len(),
                        h == self.analyzer.accesses(),
                        self.cache_policy == CachePolicy::LRU,
                        lru_scan(candidates@, h, None, u64::MAX) == lru_scan(
                            candidates@.skip(i as int),
                            h,
                            best,
                            best_time,
                        ),
                    decreases candidates.len() - i,
                {
                    proof {
                        assert(candidates@.skip(i as int).drop_first() =~= candidates@.skip(i as int + 1));
                    }
                    let c = candidates[i];
                    assert(candidates@.skip(i as int)[0] == c);
                    match self.analyzer.get_last_access_time(c) {
                        None => {
                            assert(candidates@.skip(i as int).len() > 0);
                            assert(lru_scan(candidates@.skip(i as int), h, best, best_time) == Some(c));
                            return Some(c);
                        },
                        Some(t) => {
                            if t < best_time {
                                best_time = t;
                                best = Some(c);
                            }
                        },
                    }
                    i = i + 1;
                }
                best
            },
            CachePolicy::LFU => {
                let mut best: Option<u64> = None;
                let mut best_count: u64 = u64::MAX;
                let mut i: usize = 0;
                while i < candidates.len()
                    invariant
                        i <= candidates@.len(),
                        h == self.analyzer.accesses(),
                        h.len() <= u64::MAX,
                        lfu_scan(candidates@, h, None, u64::MAX as int) == lfu_scan(
                            candidates@.skip(i as int),
                            h,
                            best,
                            best_count as int,
                        ),
                    decreases candidates.len() - i,
                {
                    proof {
                        assert(candidates@.skip(i as int).drop_first() =~= candidates@.skip(i as int + 1));
                    }
                    let c = candidates[i];
                    assert(candidates@.skip(i as int)[0] == c);
                    let count = self.analyzer.get_access_count(c);
                    if count < best_count {
                        best_count = count;
                        best = Some(c);
                    }
                    i = i + 1;
                }
                best
            },
            _ => {
                let mut i: usize = 0;
                while i < candidates.len()
                    invariant
                        i <= candidates@.len(),
                        self.cache_policy != CachePolicy::LRU,
                        self.cache_policy != CachePolicy::LFU,
                        first_cold(candidates@, self.analyzer.hot()) == first_cold(
                            candidates@.skip(i as int),
                            self.analyzer.hot(),
                        ),
                    decreases candidates.len() - i,
                {
                    proof {
                        assert(candidates@.skip(i as int).drop_first() =~= candidates@.skip(i as int + 1));
                    }
                    assert(candidates@.skip(i as int)[0] == candidates@[i as int]);
                    if !self.analyzer.is_hot_page(candidates[i]) {
                        assert(candidates@.skip(i as int).len() > 0);
                        assert(first_cold(candidates@.skip(i as int), self.analyzer.hot()) == Some(
                            candidates@[i as int],
                        ));
                        return Some(candidates[i]);
                    }
                    i = i + 1;
                }
                if candidates.len() > 0 {
                    Some(candidates[0])
                } else {
                    None
                }
            },
        }
    }
}

/// A page swapped out or in.
#[derive(Clone, Copy, PartialEq, Eq, Structural, Debug)]
pub struct SwapEvent {
    pub timestamp: u64,
    pub frame: u64,
    pub agent_id: u64,
    pub swap_out: bool,
    pub access_after_swap: Option<u64>,
}

/// Where a swapped-out frame went.
#[derive(Clone, Copy, PartialEq, Eq, Structural, Debug)]
pub struct SwapEntry {
    pub frame: u64,
    pub agent_id: u64,
    pub swapped_at: u64,
    pub swap_location: u64,
}

/// The times until next access of `agent`'s swapped pages that were
/// accessed again, in order.
pub open spec fn swap_durations(history: Seq<SwapEvent>, agent: u64) -> Seq<u64>
    decreases history.len(),
{
    if history.len() == 0 {
        Seq::empty()
    } else {
        let rest = swap_durations(history.drop_last(), agent);
        let e = history.last();
        if e.agent_id == agent && e.access_after_swap is Some {
            rest.push(e.access_after_swap->0)
        } else {
            rest
        }
    }
}

/// The swaps of `agent`, in order.
pub open spec fn swaps_of(history: Seq<SwapEvent>, agent: u64) -> Seq<SwapEvent>
    decreases history.len(),
{
    if history.len() == 0 {
        Seq::empty()
    } else {
        let rest = swaps_of(history.drop_last(), agent);
        if history.last().agent_id == agent {
            rest.push(history.last())
        } else {
            rest
        }
    }
}

/// How long `agent`'s swapped pages typically stay unused: the mean of
/// the durations, rounded down, or ten seconds when there are none.
pub open spec fn typical_duration(history: Seq<SwapEvent>, agent: u64) -> u64 {
    let d = swap_durations(history, agent);
    if d.len() == 0 {
        DEFAULT_SWAP_DURATION
    } else {
        (crate::ai_scheduler::total(d) / (d.len() as int)) as u64
    }
}

/// The history of swaps.
pub struct SwapPredictor {
    swap_history: Vec<SwapEvent>,
}

impl SwapPredictor {
    /// The swaps, oldest first.
    pub closed spec fn history(&self) -> Seq<SwapEvent> {
        self.swap_history@
    }

    pub fn new() -> (p: Self)
        ensures
            p.history() == Seq::<SwapEvent>::empty(),
    {
        SwapPredictor { swap_history: Vec::new() }
    }

    /// Records `event`, keeping the last ten thousand. Returns whether
    /// enough swaps are known to derive the agent's pattern.
    pub fn record_swap(&mut self, event: SwapEvent) -> (due: bool)
        ensures
            final(self).history() == bounded_push(old(self).history(), event, MAX_SWAP_HISTORY as int),
            due == (final(self).history().len() >= 100),
    {
        push_bounded(&mut self.swap_history, event, MAX_SWAP_HISTORY);
        self.swap_history.len() >= 100
    }

    /// The recorded swaps of `agent_id`, oldest first.
    pub fn events_of(&self, agent_id: u64) -> (r: Vec<SwapEvent>)
        ensures
            r@ == swaps_of(self.history(), agent_id),
    {
        let mut r: Vec<SwapEvent> = Vec::new();
        let mut i: usize = 0;
        while i < self.swap_history.len()
            invariant
                i <= self.swap_history@.len(),
                r@ == swaps_of(self.swap_history@.subrange(0, i as int), agent_id),
            decreases self.swap_history.len() - i,
        {
            proof {
                assert(self.swap_history@.subrange(0, i as int + 1).drop_last() =~= self.swap_history@.subrange(
                    0,
                    i as int,
                ));
            }
            let e = self.swap_history[i];
            if e.agent_id == agent_id {
                r.push(e);
            }
            i = i + 1;
        }
        proof {
            assert(self.swap_history@.subrange(0, self.swap_history@.len() as int) =~= self.swap_history@);
        }
        r
    }

    /// How long `agent_id`'s swapped pages typically stay unused; see
    /// [`typical_duration`].
    pub fn typical_swap_duration(&self, agent_id: u64) -> (d: u64)
        requires
            crate::ai_scheduler::total(swap_durations(self.history(), agent_id)) <= u64::MAX,
        ensures
            d == typical_duration(self.history(), agent_id),
    {
        let mut sum: u64 = 0;
        let mut n: u64 = 0;
        let mut i: usize = 0;
        while i < self.swap_history.len()
            invariant
                i <= self.swap_history@.len(),
                crate::ai_scheduler::total(swap_durations(self.history(), agent_id)) <= u64::MAX,
                sum == crate::ai_scheduler::total(swap_durations(self.history().subrange(0, i as int), agent_id)),
                n == swap_durations(self.history().subrange(0, i as int), agent_id).len(),
                n <= i,
            decreases self.swap_history.len() - i,
        {
            proof {
                assert(self.history().subrange(0, i as int + 1).drop_last() =~= self.history().subrange(
                    0,
                    i as int,
                ));
                lemma_durations_prefix(self.history(), agent_id, i as int + 1);
                let e = self.history()[i as int];
                if e.agent_id == agent_id && e.access_after_swap is Some {
                    lemma_total_push(
                        swap_durations(self.history().subrange(0, i as int), agent_id),
                        e.access_after_swap->0,
                    );
                }
            }
            let e = self.swap_history[i];
            if e.agent_id == agent_id {
                match e.access_after_swap {
                    Some(d) => {
                        sum = sum + d;
                        n = n + 1;
                    },
                    None => {},
                }
            }
            i = i + 1;
        }
        proof {
            assert(self.history().subrange(0, self.swap_history@.len() as int) =~= self.history());
        }
        if n == 0 {
            DEFAULT_SWAP_DURATION
        } else {
            sum / n
        }
    }
}

proof fn lemma_total_push(s: Seq<u64>, x: u64)
    ensures
        crate::ai_scheduler::total(s.push(x)) == crate::ai_scheduler::total(s) + x,
{
    assert(s.push(x).drop_last() =~= s);
}

proof fn lemma_durations_prefix(history: Seq<SwapEvent>, agent: u64, n: int)
    requires
        0 <= n <= history.len(),
    ensures
        crate::ai_scheduler::total(swap_durations(history.subrange(0, n), agent))
            <= crate::ai_scheduler::total(swap_durations(history, agent)),
    decreases history.len() - n,
{
    if n < history.len() {
        lemma_durations_prefix(history, agent, n + 1);
        assert(history.subrange(0, n + 1).drop_last() =~= history.subrange(0, n));
        let e = history[n];
        if e.agent_id == agent && e.access_after_swap is Some {
            lemma_total_push(swap_durations(history.subrange(0, n), agent), e.access_after_swap->0);
        }
    } else {
        assert(history.subrange(0, n) =~= history);
    }
}

} // verus!
