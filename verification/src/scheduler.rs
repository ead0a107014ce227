//! Agent scheduler: a CFS-like fair scheduler with deadlines, priority
//! inheritance, semantic hints and capability-based priority boosts.
//!
//! The scheduler keeps one entity per agent and a run queue of agent
//! identifiers ordered by virtual runtime. Selection picks the first agent
//! whose deadline has passed, or else the first agent of least virtual
//! runtime. Callers hand in the current time and, where a workload predictor
//! has made a choice, that choice.

use vstd::prelude::*;
use std::collections::BTreeMap;
use crate::capability::{Capabilities, CapabilityToken, ADMIN, SUPERVISOR};
use crate::capability_system::{CapabilitySystem, has_capability};

verus! {

broadcast use vstd::std_specs::btree::group_btree_axioms;

/// Time slice given to a new agent, in nanoseconds.
pub const DEFAULT_TIME_SLICE: u64 = 10_000_000;

/// Weight of a nanosecond of run time in virtual runtime, before division by
/// the agent's weight.
pub const VRUNTIME_SCALE: u64 = 1024;

/// When a lifecycle hook fires.
#[derive(Clone, Copy, PartialEq, Eq, Structural, Debug)]
pub enum LifecycleHookType {
    OnSpawn,
    OnKill,
    OnClone,
    OnMerge,
    OnSplit,
    OnUpgrade,
    OnSpecialize,
}

/// A lifecycle hook: the callback is a handle that the embedding code maps
/// to the function it stands for.
#[derive(Clone, Copy, Debug)]
pub struct LifecycleHook {
    pub hook_type: LifecycleHookType,
    pub callback: u64,
}

/// Kind of a semantic scheduling hint.
#[derive(Clone, Copy, PartialEq, Eq, Structural, Debug)]
pub enum SemanticHintType {
    HighPriority,
    LowLatency,
    Batch,
    Interactive,
}

/// A semantic scheduling hint.
#[derive(Clone, Copy, Debug)]
pub struct SemanticHint {
    pub agent_id: u64,
    pub hint_type: SemanticHintType,
    pub priority_boost: i32,
}

/// Scheduling state of one agent.
pub struct AgentEntity {
    pub agent_id: u64,
    pub vruntime: u64,
    pub weight: u64,
    pub priority: i32,
    pub time_slice: u64,
    pub time_used: u64,
    pub last_run: u64,
    pub lifecycle_hooks: Vec<LifecycleHook>,
    pub deadline: Option<u64>,
    pub priority_inherited: bool,
    pub original_priority: i32,
}

/// Statistics of one agent.
#[derive(Clone, Copy, Debug)]
pub struct AgentSchedulerStats {
    pub vruntime: u64,
    pub time_used: u64,
    pub time_slice: u64,
    pub priority: i32,
}

/// The sort key of an agent in the run queue: its virtual runtime, or 0
/// for an agent without an entity.
pub open spec fn vruntime_key(ents: Map<u64, AgentEntity>, id: u64) -> u64 {
    if ents.contains_key(id) {
        ents[id].vruntime
    } else {
        0
    }
}

/// Where a stable insertion puts an element of key `k` among the first `j`
/// elements of the sorted sequence `s`: just after the last element whose key
/// is at most `k`.
pub open spec fn insert_pos(s: Seq<u64>, ents: Map<u64, AgentEntity>, k: u64, j: int) -> int
    decreases j,
{
    if j > 0 && vruntime_key(ents, s[j - 1]) > k {
        insert_pos(s, ents, k, j - 1)
    } else {
        j
    }
}

/// `s` with `x` inserted by stable insertion.
pub open spec fn sorted_insert(s: Seq<u64>, ents: Map<u64, AgentEntity>, x: u64) -> Seq<u64> {
    s.insert(insert_pos(s, ents, vruntime_key(ents, x), s.len() as int), x)
}

/// The run queue `q` stably sorted by virtual runtime.
pub open spec fn sort_by_vruntime(q: Seq<u64>, ents: Map<u64, AgentEntity>) -> Seq<u64>
    decreases q.len(),
{
    if q.len() == 0 {
        Seq::empty()
    } else {
        sorted_insert(sort_by_vruntime(q.drop_last(), ents), ents, q.last())
    }
}

/// Whether every key in `s` is at most the key that follows it.
pub open spec fn sorted_by_vruntime(s: Seq<u64>, ents: Map<u64, AgentEntity>) -> bool {
    forall|i: int, j: int|
        0 <= i <= j < s.len() ==> vruntime_key(ents, #[trigger] s[i]) <= vruntime_key(
            ents,
            #[trigger] s[j],
        )
}

/// State of a selection scan: whether it stopped on a missed deadline, the
/// least virtual runtime seen, and the agent selected so far.
pub struct ScanState {
    pub stopped: bool,
    pub min_vrt: u64,
    pub selected: Option<u64>,
}

/// One step of the selection scan over agent `id`.
pub open spec fn scan_step(
    s: ScanState,
    ents: Map<u64, AgentEntity>,
    id: u64,
    now: u64,
    deadlines: bool,
) -> ScanState {
    if s.stopped || !ents.contains_key(id) {
        s
    } else if deadlines && ents[id].deadline is Some && now >= ents[id].deadline->0 {
        ScanState { stopped: true, min_vrt: s.min_vrt, selected: Some(id) }
    } else if ents[id].vruntime < s.min_vrt {
        ScanState { stopped: false, min_vrt: ents[id].vruntime, selected: Some(id) }
    } else {
        s
    }
}

/// The selection scan over the first `n` agents of `q`.
pub open spec fn scan(
    q: Seq<u64>,
    ents: Map<u64, AgentEntity>,
    now: u64,
    deadlines: bool,
    n: nat,
) -> ScanState
    decreases n,
{
    if n == 0 {
        ScanState { stopped: false, min_vrt: u64::MAX, selected: None }
    } else {
        scan_step(scan(q, ents, now, deadlines, (n - 1) as nat), ents, q[n - 1], now, deadlines)
    }
}

/// The entities after agent `id` was picked to run at `now`.
pub open spec fn mark_run(ents: Map<u64, AgentEntity>, id: u64, now: u64) -> Map<
    u64,
    AgentEntity,
> {
    if ents.contains_key(id) {
        ents.insert(id, AgentEntity { last_run: now, time_used: 0, ..ents[id] })
    } else {
        ents
    }
}

/// Whether adding `delta` of run time to agent `id` stays within `u64` and
/// divides by a non-zero weight.
pub open spec fn runtime_update_ok(ents: Map<u64, AgentEntity>, id: u64, delta: u64) -> bool {
    ents.contains_key(id) ==> {
        let e = ents[id];
        &&& e.weight > 0
        &&& e.time_used + delta <= u64::MAX
        &&& delta * VRUNTIME_SCALE <= u64::MAX
        &&& e.vruntime + delta * VRUNTIME_SCALE / (e.weight as int) <= u64::MAX
    }
}

/// An entity after `delta` nanoseconds of run time.
pub open spec fn charged(e: AgentEntity, delta: u64) -> AgentEntity {
    let used = (e.time_used + delta) as u64;
    AgentEntity {
        time_used: if used >= e.time_slice {
            0
        } else {
            used
        },
        vruntime: (e.vruntime + delta * VRUNTIME_SCALE / (e.weight as int)) as u64,
        ..e
    }
}

/// An entity after it inherited priority `p` from a waiting agent.
pub open spec fn inherited(e: AgentEntity, p: i32) -> AgentEntity {
    if p > e.priority {
        AgentEntity {
            priority: p,
            priority_inherited: true,
            original_priority: if e.priority_inherited {
                e.original_priority
            } else {
                e.priority
            },
            ..e
        }
    } else {
        e
    }
}

/// An entity after its inherited priority was given back.
pub open spec fn restored(e: AgentEntity) -> AgentEntity {
    if e.priority_inherited {
        AgentEntity { priority: e.original_priority, priority_inherited: false, ..e }
    } else {
        e
    }
}

/// Whether `candidate` should preempt `current`.
pub open spec fn preempts(current: AgentEntity, candidate: AgentEntity) -> bool {
    ||| candidate.priority > current.priority
    ||| current.time_used >= current.time_slice
    ||| (candidate.deadline is Some && current.deadline is None)
}

/// The hint boost of `agent_id`, or 0 without a hint.
pub open spec fn hint_boost(hints: Map<u64, SemanticHint>, agent_id: u64) -> int {
    if hints.contains_key(agent_id) {
        hints[agent_id].priority_boost as int
    } else {
        0
    }
}

/// Whether `token` passes [`has_capability`] for the bits `bits`.
pub open spec fn token_grants(
    system: Option<&CapabilitySystem>,
    token: Option<&CapabilityToken>,
    bits: u64,
) -> bool {
    match (system, token) {
        (Some(s), Some(t)) => !s.revocation_manager@.contains(t.token_id) && t.capabilities & bits
            != 0,
        _ => false,
    }
}

/// The priority of an agent once hints and capabilities are counted.
pub open spec fn boosted_priority(
    hints: Map<u64, SemanticHint>,
    agent_id: u64,
    base: i32,
    system: Option<&CapabilitySystem>,
    token: Option<&CapabilityToken>,
) -> int {
    base + hint_boost(hints, agent_id) + (if token_grants(system, token, ADMIN) {
        10int
    } else {
        0int
    }) + (if token_grants(system, token, SUPERVISOR) {
        5int
    } else {
        0int
    })
}

/// Whether capabilities alone let `candidate` preempt `current`.
pub open spec fn capability_preempts(
    system: Option<&CapabilitySystem>,
    current: Option<&CapabilityToken>,
    candidate: Option<&CapabilityToken>,
) -> bool {
    current is Some && candidate is Some && {
        let cur_admin = token_grants(system, current, ADMIN);
        let cand_admin = token_grants(system, candidate, ADMIN);
        ||| (cand_admin && !cur_admin)
        ||| (!cur_admin && !cand_admin && token_grants(system, candidate, SUPERVISOR)
            && !token_grants(system, current, SUPERVISOR))
    }
}

/// The CFS-like agent scheduler.
pub struct AgentScheduler {
    entities: BTreeMap<u64, AgentEntity>,
    runqueue: Vec<u64>,
    semantic_hints: BTreeMap<u64, SemanticHint>,
    min_vruntime: u64,
}

/// The virtual runtime of `id` in `ents`, or 0 for an unknown agent.
fn key_of(ents: &BTreeMap<u64, AgentEntity>, id: u64) -> (k: u64)
    ensures
        k == vruntime_key(ents@, id),
{
    match ents.get(&id) {
        Some(e) => e.vruntime,
        None => 0,
    }
}

/// `q` stably sorted by the virtual runtimes in `ents`.
fn sort_queue(q: &Vec<u64>, ents: &BTreeMap<u64, AgentEntity>) -> (r: Vec<u64>)
    ensures
        r@ == sort_by_vruntime(q@, ents@),
{
    let mut r: Vec<u64> = Vec::new();
    let mut i: usize = 0;
    while i < q.len()
        invariant
            i <= q.len(),
            r@ == sort_by_vruntime(q@.subrange(0, i as int), ents@),
        decreases q.len() - i,
    {
        let x = q[i];
        let k = key_of(ents, x);
        let mut j: usize = r.len();
        while j > 0
            invariant
                j <= r.len(),
                insert_pos(r@, ents@, k, r.len() as int) == insert_pos(r@, ents@, k, j as int),
            ensures
                insert_pos(r@, ents@, k, r.len() as int) == j,
            decreases j,
        {
            let kj = key_of(ents, r[j - 1]);
            if kj <= k {
                break;
            }
            j = j - 1;
        }
        proof {
            assert(q@.subrange(0, i as int + 1).drop_last() =~= q@.subrange(0, i as int));
            assert(q@.subrange(0, i as int + 1).last() == x);
        }
        r.insert(j, x);
        i = i + 1;
    }
    proof {
        assert(q@.subrange(0, q.len() as int) =~= q@);
    }
    r
}

/// Once a scan has stopped on a missed deadline, further agents change nothing.
proof fn lemma_scan_stays_stopped(
    q: Seq<u64>,
    ents: Map<u64, AgentEntity>,
    now: u64,
    deadlines: bool,
    m: nat,
    n: nat,
)
    requires
        m <= n,
        scan(q, ents, now, deadlines, m).stopped,
    ensures
        scan(q, ents, now, deadlines, n) == scan(q, ents, now, deadlines, m),
    decreases n - m,
{
    if n > m {
        lemma_scan_stays_stopped(q, ents, now, deadlines, m, (n - 1) as nat);
    }
}

/// `q` without the occurrences of `id`, in order.
pub open spec fn without(q: Seq<u64>, id: u64) -> Seq<u64>
    decreases q.len(),
{
    if q.len() == 0 {
        Seq::empty()
    } else if q.last() == id {
        without(q.drop_last(), id)
    } else {
        without(q.drop_last(), id).push(q.last())
    }
}

/// The callbacks of the hooks in `hooks` of type `t`, in order.
pub open spec fn matching_callbacks(hooks: Seq<LifecycleHook>, t: LifecycleHookType) -> Seq<u64>
    decreases hooks.len(),
{
    if hooks.len() == 0 {
        Seq::empty()
    } else if hooks.last().hook_type == t {
        matching_callbacks(hooks.drop_last(), t).push(hooks.last().callback)
    } else {
        matching_callbacks(hooks.drop_last(), t)
    }
}

/// Whether `a` and `b` agree on everything but the lifecycle hooks.
pub open spec fn same_but_hooks(a: AgentEntity, b: AgentEntity) -> bool {
    &&& a.agent_id == b.agent_id
    &&& a.vruntime == b.vruntime
    &&& a.weight == b.weight
    &&& a.priority == b.priority
    &&& a.time_slice == b.time_slice
    &&& a.time_used == b.time_used
    &&& a.last_run == b.last_run
    &&& a.deadline == b.deadline
    &&& a.priority_inherited == b.priority_inherited
    &&& a.original_priority == b.original_priority
}

/// `q` without the occurrences of `id`.
fn remove_from_queue(q: &Vec<u64>, id: u64) -> (r: Vec<u64>)
    ensures
        r@ == without(q@, id),
{
    let mut r: Vec<u64> = Vec::new();
    let mut i: usize = 0;
    while i < q.len()
        invariant
            i <= q.len(),
            r@ == without(q@.subrange(0, i as int), id),
        decreases q.len() - i,
    {
        proof {
            assert(q@.subrange(0, i as int + 1).drop_last() =~= q@.subrange(0, i as int));
        }
        if q[i] != id {
            r.push(q[i]);
        }
        i = i + 1;
    }
    proof {
        assert(q@.subrange(0, q.len() as int) =~= q@);
    }
    r
}

impl AgentScheduler {
    /// Entity of each agent known to the scheduler.
    pub closed spec fn entities(&self) -> Map<u64, AgentEntity> {
        self.entities@
    }

    /// The run queue, front first.
    pub closed spec fn runqueue(&self) -> Seq<u64> {
        self.runqueue@
    }

    /// Semantic hint of each agent that has one.
    pub closed spec fn hints(&self) -> Map<u64, SemanticHint> {
        self.semantic_hints@
    }

    /// Least virtual runtime seen by a selection from the run queue.
    pub closed spec fn min_vruntime(&self) -> u64 {
        self.min_vruntime
    }

    pub fn new() -> (s: Self)
        ensures
            s.entities() == Map::<u64, AgentEntity>::empty(),
            s.runqueue() == Seq::<u64>::empty(),
            s.hints() == Map::<u64, SemanticHint>::empty(),
            s.min_vruntime() == 0,
    {
        AgentScheduler {
            entities: BTreeMap::new(),
            runqueue: Vec::new(),
            semantic_hints: BTreeMap::new(),
            min_vruntime: 0,
        }
    }

    /// The selection scan over `queue`.
    fn select(&self, queue: &Vec<u64>, now: u64, deadlines: bool) -> (r: ScanState)
        ensures
            r == scan(queue@, self.entities(), now, deadlines, queue@.len()),
    {
        let mut st = ScanState { stopped: false, min_vrt: u64::MAX, selected: None };
        let mut i: usize = 0;
        while i < queue.len()
            invariant_except_break
                st == scan(queue@, self.entities@, now, deadlines, i as nat),
                !st.stopped,
            invariant
                i <= queue.len(),
            ensures
                st == scan(queue@, self.entities@, now, deadlines, queue@.len()),
            decreases queue.len() - i,
        {
            let id = queue[i];
            match self.entities.get(&id) {
                Some(e) => {
                    let mut missed = false;
                    if deadlines {
                        match e.deadline {
                            Some(d) => {
                                missed = now >= d;
                            },
                            None => {},
                        }
                    }
                    if missed {
                        st = ScanState { stopped: true, min_vrt: st.min_vrt, selected: Some(id) };
                        proof {
                            lemma_scan_stays_stopped(
                                queue@,
                                self.entities@,
                                now,
                                deadlines,
                                (i + 1) as nat,
                                queue@.len(),
                            );
                        }
                        break ;
                    }
                    if e.vruntime < st.min_vrt {
                        st = ScanState { stopped: false, min_vrt: e.vruntime, selected: Some(id) };
                    }
                },
                None => {},
            }
            i = i + 1;
        }
        st
    }

    /// Records that agent `id` was picked to run at `now`.
    fn mark_running(&mut self, id: u64, now: u64)
        ensures
            final(self).entities() == mark_run(old(self).entities(), id, now),
            final(self).runqueue() == old(self).runqueue(),
            final(self).hints() == old(self).hints(),
            final(self).min_vruntime() == old(self).min_vruntime(),
    {
        match self.entities.remove(&id) {
            Some(mut e) => {
                e.last_run = now;
                e.time_used = 0;
                self.entities.insert(id, e);
                proof {
                    assert(self.entities@ =~= mark_run(old(self).entities@, id, now));
                }
            },
            None => {},
        }
    }

    /// Adds an agent with a fresh entity and puts it into the run queue,
    /// which is then sorted by virtual runtime.
    pub fn add_agent(&mut self, agent_id: u64, weight: u64, priority: i32)
        ensures
            final(self).entities().dom() == old(self).entities().dom().insert(agent_id),
            forall|id: u64|
                id != agent_id && old(self).entities().contains_key(id) ==> final(self).entities()[id]
                    == old(self).entities()[id],
            ({
                let e = final(self).entities()[agent_id];
                &&& e.agent_id == agent_id
                &&& e.vruntime == 0
                &&& e.weight == weight
                &&& e.priority == priority
                &&& e.time_slice == DEFAULT_TIME_SLICE
                &&& e.time_used == 0
                &&& e.last_run == 0
                &&& e.lifecycle_hooks@ == Seq::<LifecycleHook>::empty()
                &&& e.deadline is None
                &&& !e.priority_inherited
                &&& e.original_priority == priority
            }),
            final(self).runqueue() == sort_by_vruntime(
                old(self).runqueue().push(agent_id),
                final(self).entities(),
            ),
            final(self).hints() == old(self).hints(),
            final(self).min_vruntime() == old(self).min_vruntime(),
    {
        let entity = AgentEntity {
            agent_id,
            vruntime: 0,
            weight,
            priority,
            time_slice: DEFAULT_TIME_SLICE,
            time_used: 0,
            last_run: 0,
            lifecycle_hooks: Vec::new(),
            deadline: None,
            priority_inherited: false,
            original_priority: priority,
        };
        self.entities.insert(agent_id, entity);
        self.runqueue.push(agent_id);
        self.runqueue = sort_queue(&self.runqueue, &self.entities);
    }

    /// Picks the next agent to run from the run queue and marks it running
    /// at `now`. A choice already made by the workload predictor wins;
    /// otherwise the first agent whose deadline has passed, or else the
    /// first agent of least virtual runtime.
    pub fn next(&mut self, now: u64, predicted: Option<u64>) -> (r: Option<u64>)
        ensures
            final(self).runqueue() == old(self).runqueue(),
            final(self).hints() == old(self).hints(),
            predicted is Some ==> {
                &&& r == predicted
                &&& final(self).entities() == mark_run(old(self).entities(), predicted->0, now)
                &&& final(self).min_vruntime() == old(self).min_vruntime()
            },
            predicted is None ==> {
                let s = scan(
                    old(self).runqueue(),
                    old(self).entities(),
                    now,
                    true,
                    old(self).runqueue().len(),
                );
                &&& r == s.selected
                &&& final(self).entities() == match s.selected {
                    Some(id) => mark_run(old(self).entities(), id, now),
                    None => old(self).entities(),
                }
                &&& final(self).min_vruntime() == if s.selected is Some && s.min_vrt > old(
                    self,
                ).min_vruntime() {
                    s.min_vrt
                } else {
                    old(self).min_vruntime()
                }
            },
    {
        if let Some(id) = predicted {
            self.mark_running(id, now);
            return Some(id);
        }
        let st = self.select(&self.runqueue, now, true);
        match st.selected {
            Some(id) => {
                if st.min_vrt > self.min_vruntime {
                    self.min_vruntime = st.min_vrt;
                }
                self.mark_running(id, now);
                Some(id)
            },
            None => None,
        }
    }

    /// Picks the next agent from a per-CPU run queue: the predictor's
    /// choice, or else the first agent of least virtual runtime. Deadlines
    /// and the least virtual runtime are not consulted on this path.
    pub fn next_from_queue(&mut self, queue: &Vec<u64>, now: u64, predicted: Option<u64>) -> (r:
        Option<u64>)
        ensures
            final(self).runqueue() == old(self).runqueue(),
            final(self).hints() == old(self).hints(),
            final(self).min_vruntime() == old(self).min_vruntime(),
            r == match predicted {
                Some(p) => Some(p),
                None => scan(queue@, old(self).entities(), now, false, queue@.len()).selected,
            },
            final(self).entities() == match r {
                Some(id) => mark_run(old(self).entities(), id, now),
                None => old(self).entities(),
            },
    {
        if let Some(id) = predicted {
            self.mark_running(id, now);
            return Some(id);
        }
        let st = self.select(queue, now, false);
        match st.selected {
            Some(id) => {
                self.mark_running(id, now);
                Some(id)
            },
            None => None,
        }
    }

    /// Charges `time_delta` nanoseconds of run time to `agent_id` and
    /// re-sorts the run queue by virtual runtime.
    pub fn update_runtime(&mut self, agent_id: u64, time_delta: u64)
        requires
            runtime_update_ok(old(self).entities(), agent_id, time_delta),
        ensures
            final(self).entities() == if old(self).entities().contains_key(agent_id) {
                old(self).entities().insert(
                    agent_id,
                    charged(old(self).entities()[agent_id], time_delta),
                )
            } else {
                old(self).entities()
            },
            final(self).runqueue() == sort_by_vruntime(old(self).runqueue(), final(self).entities()),
            final(self).hints() == old(self).hints(),
            final(self).min_vruntime() == old(self).min_vruntime(),
    {
        match self.entities.remove(&agent_id) {
            Some(mut e) => {
                e.time_used = e.time_used + time_delta;
                let vruntime_delta = (time_delta * VRUNTIME_SCALE) / e.weight;
                e.vruntime = e.vruntime + vruntime_delta;
                if e.time_used >= e.time_slice {
                    e.time_used = 0;
                }
                self.entities.insert(agent_id, e);
                proof {
                    assert(self.entities@ =~= old(self).entities@.insert(
                        agent_id,
                        charged(old(self).entities@[agent_id], time_delta),
                    ));
                }
            },
            None => {},
        }
        self.runqueue = sort_queue(&self.runqueue, &self.entities);
    }

    /// Puts the agent back: charges no run time and re-sorts the run queue.
    pub fn yield_agent(&mut self, agent_id: u64)
        requires
            runtime_update_ok(old(self).entities(), agent_id, 0),
        ensures
            final(self).entities() == if old(self).entities().contains_key(agent_id) {
                old(self).entities().insert(agent_id, charged(old(self).entities()[agent_id], 0))
            } else {
                old(self).entities()
            },
            final(self).runqueue() == sort_by_vruntime(old(self).runqueue(), final(self).entities()),
            final(self).hints() == old(self).hints(),
            final(self).min_vruntime() == old(self).min_vruntime(),
    {
        self.update_runtime(agent_id, 0);
    }

    /// The priority of `agent_id` from `base_priority`, its semantic hint and
    /// the capabilities that `capability` grants: ADMIN adds 10 and
    /// SUPERVISOR adds 5.
    pub fn adjust_priority_with_capability(
        &self,
        agent_id: u64,
        base_priority: i32,
        capability: Option<&CapabilityToken>,
        system: Option<&CapabilitySystem>,
    ) -> (r: i32)
        requires
            i32::MIN <= base_priority + hint_boost(self.hints(), agent_id) <= i32::MAX,
            boosted_priority(self.hints(), agent_id, base_priority, system, capability)
                <= i32::MAX,
        ensures
            r == boosted_priority(self.hints(), agent_id, base_priority, system, capability),
    {
        let mut priority = base_priority;
        match self.semantic_hints.get(&agent_id) {
            Some(hint) => {
                priority = priority + hint.priority_boost;
            },
            None => {},
        }
        if capability.is_some() {
            if has_capability(system, capability, Capabilities::from_bits(ADMIN)) {
                priority = priority + 10;
            }
            if has_capability(system, capability, Capabilities::from_bits(SUPERVISOR)) {
                priority = priority + 5;
            }
        }
        priority
    }

    /// Sets the deadline of `agent_id`.
    pub fn set_deadline(&mut self, agent_id: u64, deadline: u64)
        ensures
            final(self).entities() == if old(self).entities().contains_key(agent_id) {
                old(self).entities().insert(
                    agent_id,
                    AgentEntity { deadline: Some(deadline), ..old(self).entities()[agent_id] },
                )
            } else {
                old(self).entities()
            },
            final(self).runqueue() == old(self).runqueue(),
            final(self).hints() == old(self).hints(),
            final(self).min_vruntime() == old(self).min_vruntime(),
    {
        match self.entities.remove(&agent_id) {
            Some(mut e) => {
                e.deadline = Some(deadline);
                self.entities.insert(agent_id, e);
                proof {
                    assert(self.entities@ =~= old(self).entities@.insert(
                        agent_id,
                        AgentEntity { deadline: Some(deadline), ..old(self).entities@[agent_id] },
                    ));
                }
            },
            None => {},
        }
    }

    /// Priority inheritance: the blocking agent takes the priority of the
    /// waiting agent when that is higher, remembering its own.
    pub fn inherit_priority(&mut self, blocking_agent_id: u64, waiting_agent_id: u64)
        ensures
            final(self).entities() == if old(self).entities().contains_key(blocking_agent_id)
                && old(self).entities().contains_key(waiting_agent_id) {
                old(self).entities().insert(
                    blocking_agent_id,
                    inherited(
                        old(self).entities()[blocking_agent_id],
                        old(self).entities()[waiting_agent_id].priority,
                    ),
                )
            } else {
                old(self).entities()
            },
            final(self).runqueue() == old(self).runqueue(),
            final(self).hints() == old(self).hints(),
            final(self).min_vruntime() == old(self).min_vruntime(),
    {
        let waiting_priority = match self.entities.get(&waiting_agent_id) {
            Some(w) => w.priority,
            None => {
                return ;
            },
        };
        match self.entities.remove(&blocking_agent_id) {
            Some(mut b) => {
                if waiting_priority > b.priority {
                    if !b.priority_inherited {
                        b.original_priority = b.priority;
                        b.priority_inherited = true;
                    }
                    b.priority = waiting_priority;
                }
                self.entities.insert(blocking_agent_id, b);
                proof {
                    assert(self.entities@ =~= old(self).entities@.insert(
                        blocking_agent_id,
                        inherited(
                            old(self).entities@[blocking_agent_id],
                            old(self).entities@[waiting_agent_id].priority,
                        ),
                    ));
                }
            },
            None => {},
        }
    }

    /// Gives back an inherited priority.
    pub fn restore_priority(&mut self, agent_id: u64)
        ensures
            final(self).entities() == if old(self).entities().contains_key(agent_id) {
                old(self).entities().insert(agent_id, restored(old(self).entities()[agent_id]))
            } else {
                old(self).entities()
            },
            final(self).runqueue() == old(self).runqueue(),
            final(self).hints() == old(self).hints(),
            final(self).min_vruntime() == old(self).min_vruntime(),
    {
        match self.entities.remove(&agent_id) {
            Some(mut e) => {
                if e.priority_inherited {
                    e.priority = e.original_priority;
                    e.priority_inherited = false;
                }
                self.entities.insert(agent_id, e);
                proof {
                    assert(self.entities@ =~= old(self).entities@.insert(
                        agent_id,
                        restored(old(self).entities@[agent_id]),
                    ));
                }
            },
            None => {},
        }
    }

    /// Whether `candidate_agent_id` should preempt `current_agent_id`.
    pub fn should_preempt(&self, current_agent_id: u64, candidate_agent_id: u64) -> (r: bool)
        ensures
            r == (self.entities().contains_key(current_agent_id) && self.entities().contains_key(
                candidate_agent_id,
            ) && preempts(
                self.entities()[current_agent_id],
                self.entities()[candidate_agent_id],
            )),
    {
        match (self.entities.get(&current_agent_id), self.entities.get(&candidate_agent_id)) {
            (Some(current), Some(candidate)) => {
                if candidate.priority > current.priority {
                    return true;
                }
                if current.time_used >= current.time_slice {
                    return true;
                }
                if candidate.deadline.is_some() && current.deadline.is_none() {
                    return true;
                }
                false
            },
            _ => false,
        }
    }

    /// Whether the candidate should preempt the current agent, by
    /// [`Self::should_preempt`] or by the capabilities of their tokens.
    pub fn should_preempt_by_capability(
        &self,
        current_agent_id: u64,
        candidate_agent_id: u64,
        current_capability: Option<&CapabilityToken>,
        candidate_capability: Option<&CapabilityToken>,
        system: Option<&CapabilitySystem>,
    ) -> (r: bool)
        ensures
            r == ((self.entities().contains_key(current_agent_id) && self.entities().contains_key(
                candidate_agent_id,
            ) && preempts(
                self.entities()[current_agent_id],
                self.entities()[candidate_agent_id],
            )) || capability_preempts(system, current_capability, candidate_capability)),
    {
        if self.should_preempt(current_agent_id, candidate_agent_id) {
            return true;
        }
        if current_capability.is_some() && candidate_capability.is_some() {
            let admin = Capabilities::from_bits(ADMIN);
            let cand_admin = has_capability(system, candidate_capability, admin);
            let cur_admin = has_capability(system, current_capability, Capabilities::from_bits(ADMIN));
            if cand_admin && !cur_admin {
                return true;
            }
            if !cur_admin && !cand_admin {
                if has_capability(system, candidate_capability, Capabilities::from_bits(SUPERVISOR))
                    && !has_capability(
                    system,
                    current_capability,
                    Capabilities::from_bits(SUPERVISOR),
                ) {
                    return true;
                }
            }
        }
        false
    }

    /// Sets the semantic hint of `agent_id`.
    pub fn set_semantic_hint(&mut self, agent_id: u64, hint: SemanticHint)
        ensures
            final(self).hints() == old(self).hints().insert(agent_id, hint),
            final(self).entities() == old(self).entities(),
            final(self).runqueue() == old(self).runqueue(),
            final(self).min_vruntime() == old(self).min_vruntime(),
    {
        self.semantic_hints.insert(agent_id, hint);
    }

    /// Adds a lifecycle hook to a known agent.
    pub fn register_lifecycle_hook(&mut self, agent_id: u64, hook: LifecycleHook)
        ensures
            final(self).entities().dom() == old(self).entities().dom(),
            forall|id: u64|
                id != agent_id && old(self).entities().contains_key(id) ==> final(self).entities()[id]
                    == old(self).entities()[id],
            old(self).entities().contains_key(agent_id) ==> {
                &&& same_but_hooks(
                    final(self).entities()[agent_id],
                    old(self).entities()[agent_id],
                )
                &&& final(self).entities()[agent_id].lifecycle_hooks@ == old(
                    self,
                ).entities()[agent_id].lifecycle_hooks@.push(hook)
            },
            final(self).runqueue() == old(self).runqueue(),
            final(self).hints() == old(self).hints(),
            final(self).min_vruntime() == old(self).min_vruntime(),
    {
        match self.entities.remove(&agent_id) {
            Some(mut e) => {
                e.lifecycle_hooks.push(hook);
                self.entities.insert(agent_id, e);
                proof {
                    assert(self.entities@.dom() =~= old(self).entities@.dom());
                }
            },
            None => {},
        }
    }

    /// The callbacks registered by `agent_id` for `hook_type`, in the order
    /// in which they were registered; the embedding code calls each with the
    /// agent's identifier.
    pub fn lifecycle_callbacks(&self, agent_id: u64, hook_type: LifecycleHookType) -> (r: Vec<u64>)
        ensures
            r@ == if self.entities().contains_key(agent_id) {
                matching_callbacks(self.entities()[agent_id].lifecycle_hooks@, hook_type)
            } else {
                Seq::<u64>::empty()
            },
    {
        let mut r: Vec<u64> = Vec::new();
        match self.entities.get(&agent_id) {
            Some(e) => {
                let hooks = &e.lifecycle_hooks;
                let mut i: usize = 0;
                while i < hooks.len()
                    invariant
                        i <= hooks.len(),
                        r@ == matching_callbacks(hooks@.subrange(0, i as int), hook_type),
                    decreases hooks.len() - i,
                {
                    proof {
                        assert(hooks@.subrange(0, i as int + 1).drop_last() =~= hooks@.subrange(
                            0,
                            i as int,
                        ));
                    }
                    if hooks[i].hook_type == hook_type {
                        r.push(hooks[i].callback);
                    }
                    i = i + 1;
                }
                proof {
                    assert(hooks@.subrange(0, hooks.len() as int) =~= hooks@);
                }
            },
            None => {},
        }
        r
    }

    /// Forgets `agent_id`: its entity, its run-queue entries and its hint.
    pub fn remove_agent(&mut self, agent_id: u64)
        ensures
            final(self).entities() == old(self).entities().remove(agent_id),
            final(self).runqueue() == without(old(self).runqueue(), agent_id),
            final(self).hints() == old(self).hints().remove(agent_id),
            final(self).min_vruntime() == old(self).min_vruntime(),
    {
        self.entities.remove(&agent_id);
        self.runqueue = remove_from_queue(&self.runqueue, agent_id);
        self.semantic_hints.remove(&agent_id);
    }

    /// Sets the time slice of `agent_id`.
    pub fn set_time_slice(&mut self, agent_id: u64, time_slice: u64)
        ensures
            final(self).entities() == if old(self).entities().contains_key(agent_id) {
                old(self).entities().insert(
                    agent_id,
                    AgentEntity { time_slice, ..old(self).entities()[agent_id] },
                )
            } else {
                old(self).entities()
            },
            final(self).runqueue() == old(self).runqueue(),
            final(self).hints() == old(self).hints(),
            final(self).min_vruntime() == old(self).min_vruntime(),
    {
        match self.entities.remove(&agent_id) {
            Some(mut e) => {
                e.time_slice = time_slice;
                self.entities.insert(agent_id, e);
                proof {
                    assert(self.entities@ =~= old(self).entities@.insert(
                        agent_id,
                        AgentEntity { time_slice, ..old(self).entities@[agent_id] },
                    ));
                }
            },
            None => {},
        }
    }

    /// The statistics of `agent_id`, if the scheduler knows it.
    pub fn get_stats(&self, agent_id: u64) -> (r: Option<AgentSchedulerStats>)
        ensures
            r is Some <==> self.entities().contains_key(agent_id),
            r matches Some(st) ==> {
                let e = self.entities()[agent_id];
                &&& st.vruntime == e.vruntime
                &&& st.time_used == e.time_used
                &&& st.time_slice == e.time_slice
                &&& st.priority == e.priority
            },
    {
        match self.entities.get(&agent_id) {
            Some(e) => Some(
                AgentSchedulerStats {
                    vruntime: e.vruntime,
                    time_used: e.time_used,
                    time_slice: e.time_slice,
                    priority: e.priority,
                },
            ),
            None => None,
        }
    }
}

/// Where a stable insertion of key `k` goes among the first `j` elements:
/// every element from there up to `j` has a larger key, and the one just
/// before it does not.
proof fn lemma_insert_pos(s: Seq<u64>, ents: Map<u64, AgentEntity>, k: u64, j: int)
    requires
        0 <= j <= s.len(),
    ensures
        0 <= insert_pos(s, ents, k, j) <= j,
        forall|i: int|
            insert_pos(s, ents, k, j) <= i < j ==> vruntime_key(ents, #[trigger] s[i]) > k,
        insert_pos(s, ents, k, j) > 0 ==> vruntime_key(ents, s[insert_pos(s, ents, k, j) - 1])
            <= k,
    decreases j,
{
    if j > 0 && vruntime_key(ents, s[j - 1]) > k {
        lemma_insert_pos(s, ents, k, j - 1);
    }
}

/// Sorting the run queue yields a queue ordered by virtual runtime that
/// holds the same agents, each as often as before.
pub proof fn law_run_queue_sorted(q: Seq<u64>, ents: Map<u64, AgentEntity>)
    ensures
        sorted_by_vruntime(sort_by_vruntime(q, ents), ents),
        sort_by_vruntime(q, ents).to_multiset() == q.to_multiset(),
    decreases q.len(),
{
    broadcast use vstd::seq_lib::to_multiset_build, vstd::seq_lib::to_multiset_insert;

    if q.len() > 0 {
        let prev = sort_by_vruntime(q.drop_last(), ents);
        law_run_queue_sorted(q.drop_last(), ents);
        let x = q.last();
        let k = vruntime_key(ents, x);
        let p = insert_pos(prev, ents, k, prev.len() as int);
        lemma_insert_pos(prev, ents, k, prev.len() as int);
        let t = prev.insert(p, x);
        assert forall|i: int, j: int| 0 <= i <= j < t.len() implies vruntime_key(
            ents,
            #[trigger] t[i],
        ) <= vruntime_key(ents, #[trigger] t[j]) by {
            if i < p && j < p {
                assert(t[i] == prev[i] && t[j] == prev[j]);
            } else if i < p && j == p {
                assert(t[i] == prev[i]);
                assert(vruntime_key(ents, prev[i]) <= vruntime_key(ents, prev[p - 1]));
            } else if i < p && j > p {
                assert(t[i] == prev[i] && t[j] == prev[j - 1]);
            } else if i == p && j > p {
                assert(t[j] == prev[j - 1]);
            } else if i > p {
                assert(t[i] == prev[i - 1] && t[j] == prev[j - 1]);
            }
        }
        assert(q =~= q.drop_last().push(x));
        assert(t.to_multiset() == prev.to_multiset().insert(x));
        assert(q.to_multiset() == q.drop_last().to_multiset().insert(x));
    } else {
        assert(q =~= Seq::<u64>::empty());
        assert(sort_by_vruntime(q, ents) =~= Seq::<u64>::empty());
    }
}

/// A selection that did not stop on a deadline picks the first agent of
/// least virtual runtime among the queued agents that have an entity.
pub proof fn law_selection_least_vruntime(
    q: Seq<u64>,
    ents: Map<u64, AgentEntity>,
    now: u64,
    deadlines: bool,
    n: nat,
)
    requires
        n <= q.len(),
        !scan(q, ents, now, deadlines, n).stopped,
    ensures
        forall|i: int|
            0 <= i < n && ents.contains_key(#[trigger] q[i]) ==> scan(
                q,
                ents,
                now,
                deadlines,
                n,
            ).min_vrt <= ents[q[i]].vruntime,
        scan(q, ents, now, deadlines, n).selected matches Some(id) ==> {
            &&& ents.contains_key(id)
            &&& ents[id].vruntime == scan(q, ents, now, deadlines, n).min_vrt
            &&& exists|i: int|
                0 <= i < n && q[i] == id && forall|j: int|
                    0 <= j < i && ents.contains_key(#[trigger] q[j]) ==> ents[q[j]].vruntime
                        > ents[id].vruntime
        },
        scan(q, ents, now, deadlines, n).selected is None ==> scan(
            q,
            ents,
            now,
            deadlines,
            n,
        ).min_vrt == u64::MAX,
    decreases n,
{
    if n > 0 {
        let prev = scan(q, ents, now, deadlines, (n - 1) as nat);
        law_selection_least_vruntime(q, ents, now, deadlines, (n - 1) as nat);
        let cur = scan(q, ents, now, deadlines, n);
        if cur.selected != prev.selected {
            let id = q[n - 1];
            assert forall|j: int|
                0 <= j < n - 1 && ents.contains_key(#[trigger] q[j]) implies ents[q[j]].vruntime
                > ents[id].vruntime by {}
        } else if let Some(id) = cur.selected {
            let i = choose|i: int|
                0 <= i < n - 1 && q[i] == id && forall|j: int|
                    0 <= j < i && ents.contains_key(#[trigger] q[j]) ==> ents[q[j]].vruntime
                        > ents[id].vruntime;
            assert(0 <= i < n && q[i] == id);
        }
    }
}

/// Giving back an inherited priority restores the priority that the agent
/// had before it inherited one.
pub proof fn law_restore_undoes_inherit(e: AgentEntity, p: i32)
    requires
        !e.priority_inherited,
    ensures
        restored(inherited(e, p)).priority == e.priority,
        !restored(inherited(e, p)).priority_inherited,
        restored(inherited(e, p)).vruntime == e.vruntime,
{
}

/// Charging run time never lowers an agent's virtual runtime.
pub proof fn law_vruntime_monotone(e: AgentEntity, delta: u64)
    requires
        e.weight > 0,
        e.vruntime + delta * VRUNTIME_SCALE / (e.weight as int) <= u64::MAX,
    ensures
        charged(e, delta).vruntime >= e.vruntime,
{
    assert(delta * VRUNTIME_SCALE / (e.weight as int) >= 0) by (nonlinear_arith)
        requires
            e.weight > 0,
    ;
}

/// Preemption by capability, for two tokens that are not revoked: a
/// candidate holding ADMIN preempts a current agent without ADMIN, whatever
/// else the current token holds; nothing preempts a current agent holding
/// ADMIN; between two agents without ADMIN, a candidate holding SUPERVISOR
/// preempts a current agent without it, and otherwise there is no
/// preemption. Without both tokens there is no preemption by capability.
pub proof fn law_capability_preemption(
    system: &CapabilitySystem,
    current: &CapabilityToken,
    candidate: &CapabilityToken,
)
    requires
        !system.revocation_manager@.contains(current.token_id),
        !system.revocation_manager@.contains(candidate.token_id),
    ensures
        candidate.capabilities & 1024 != 0 && current.capabilities & 1024 == 0 ==> capability_preempts(
            Some(system),
            Some(current),
            Some(candidate),
        ),
        current.capabilities & 1024 != 0 ==> !capability_preempts(Some(system), Some(current), Some(candidate)),
        candidate.capabilities & 1024 == 0 && current.capabilities & 1024 == 0 ==> (capability_preempts(
            Some(system),
            Some(current),
            Some(candidate),
        ) <==> (candidate.capabilities & 512 != 0 && current.capabilities & 512 == 0)),
        !capability_preempts(Some(system), None, Some(candidate)),
        !capability_preempts(Some(system), Some(current), None),
{
}

/// Preemption between two known agents: a candidate of higher priority
/// preempts; a current agent that has used up its time slice is preempted;
/// a candidate with a deadline preempts a current agent without one; in
/// no other case is there preemption.
pub proof fn law_preemption(current: AgentEntity, candidate: AgentEntity)
    ensures
        candidate.priority > current.priority ==> preempts(current, candidate),
        current.time_used >= current.time_slice ==> preempts(current, candidate),
        candidate.deadline is Some && current.deadline is None ==> preempts(current, candidate),
        candidate.priority <= current.priority && current.time_used < current.time_slice && (
        candidate.deadline is None || current.deadline is Some) ==> !preempts(current, candidate),
{
}

} // verus!
