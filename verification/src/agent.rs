//! Agents, the kernel's unit of execution, and the manager that spawns
//! them and hands them to the scheduler.

use vstd::prelude::*;
use crate::scheduler::{AgentScheduler, AgentEntity, sort_by_vruntime, DEFAULT_TIME_SLICE};

verus! {

/// Weight a spawned agent gets in the scheduler: one nanosecond of run time
/// counts as one nanosecond of virtual runtime.
pub const DEFAULT_WEIGHT: u64 = 1024;

/// Priority a spawned agent gets in the scheduler.
pub const DEFAULT_PRIORITY: i32 = 0;

/// State of an agent.
#[derive(Clone, Copy, PartialEq, Eq, Structural, Debug)]
pub enum AgentState {
    Created,
    Running,
    Waiting,
    Terminated,
}

/// What an agent is made from.
pub struct AgentSpec {
    pub id: u64,
    pub capabilities: Vec<u8>,
    pub memory_limit: usize,
    pub cpu_limit: u8,
}

/// Why an agent could not be made.
#[derive(Clone, Copy, PartialEq, Eq, Structural, Debug)]
pub enum AgentError {
    InvalidSpec,
    ResourceExhausted,
    SecurityViolation,
}

/// The memory an agent runs in.
#[derive(Clone, Copy, Debug)]
pub struct AgentContext {
    pub memory_pool: u64,
    pub memory_size: usize,
}

/// An agent.
pub struct Agent {
    id: u64,
    state: AgentState,
    spec: AgentSpec,
    context: AgentContext,
}

fn copy_spec(s: &AgentSpec) -> (c: AgentSpec)
    ensures
        c.id == s.id,
        c.capabilities@ == s.capabilities@,
        c.memory_limit == s.memory_limit,
        c.cpu_limit == s.cpu_limit,
{
    let mut caps: Vec<u8> = Vec::new();
    let mut i: usize = 0;
    while i < s.capabilities.len()
        invariant
            i <= s.capabilities@.len(),
            caps@ == s.capabilities@.subrange(0, i as int),
        decreases s.capabilities.len() - i,
    {
        caps.push(s.capabilities[i]);
        i = i + 1;
    }
    AgentSpec { id: s.id, capabilities: caps, memory_limit: s.memory_limit, cpu_limit: s.cpu_limit }
}

impl Agent {
    /// The agent's identifier.
    pub closed spec fn id_spec(&self) -> u64 {
        self.id
    }

    /// The agent's state.
    pub closed spec fn state_spec(&self) -> AgentState {
        self.state
    }

    /// The agent's specification: identifier, capabilities, memory limit and
    /// processor limit.
    pub closed spec fn spec_of(&self) -> (u64, Seq<u8>, usize, u8) {
        (self.spec.id, self.spec.capabilities@, self.spec.memory_limit, self.spec.cpu_limit)
    }

    /// A new agent from `spec`, in state Created with no memory yet; a spec
    /// without memory is refused.
    pub fn new(spec: AgentSpec) -> (r: Result<Agent, AgentError>)
        ensures
            spec.memory_limit == 0 ==> r is Err && r->Err_0 == AgentError::InvalidSpec,
            spec.memory_limit != 0 ==> r is Ok && r->Ok_0.id_spec() == spec.id && r->Ok_0.state_spec()
                == AgentState::Created && r->Ok_0.spec_of() == (
                spec.id,
                spec.capabilities@,
                spec.memory_limit,
                spec.cpu_limit,
            ),
    {
        if spec.memory_limit == 0 {
            return Err(AgentError::InvalidSpec);
        }
        Ok(
            Agent {
                id: spec.id,
                state: AgentState::Created,
                spec,
                context: AgentContext { memory_pool: 0, memory_size: 0 },
            },
        )
    }

    pub fn id(&self) -> (r: u64)
        ensures
            r == self.id_spec(),
    {
        self.id
    }

    pub fn state(&self) -> (r: AgentState)
        ensures
            r == self.state_spec(),
    {
        self.state
    }

    pub fn set_state(&mut self, state: AgentState)
        ensures
            final(self).state_spec() == state,
            final(self).id_spec() == old(self).id_spec(),
            final(self).spec_of() == old(self).spec_of(),
    {
        self.state = state;
    }

    /// A copy of the agent.
    pub fn duplicate(&self) -> (c: Agent)
        ensures
            c.id_spec() == self.id_spec(),
            c.state_spec() == self.state_spec(),
            c.spec_of() == self.spec_of(),
    {
        Agent { id: self.id, state: self.state, spec: copy_spec(&self.spec), context: self.context }
    }
}

/// The agent with identifier `id` among `agents`, first match.
pub open spec fn agent_index(agents: Seq<Agent>, id: u64, i: int) -> Option<int>
    decreases agents.len() - i,
{
    if i < 0 || i >= agents.len() {
        None
    } else if agents[i].id_spec() == id {
        Some(i)
    } else {
        agent_index(agents, id, i + 1)
    }
}

/// The agents and their scheduler.
pub struct AgentManager {
    pub scheduler: AgentScheduler,
    pub agents: Vec<Agent>,
}

impl AgentManager {
    /// The agents, in spawn order.
    pub closed spec fn agents(&self) -> Seq<Agent> {
        self.agents@
    }

    pub fn new() -> (m: Self)
        ensures
            m.agents() == Seq::<Agent>::empty(),
            m.scheduler.entities() == Map::<u64, AgentEntity>::empty(),
            m.scheduler.runqueue() == Seq::<u64>::empty(),
    {
        AgentManager { scheduler: AgentScheduler::new(), agents: Vec::new() }
    }

    /// Spawns an agent from `spec` and schedules it with the default weight
    /// and priority; returns its identifier.
    pub fn spawn_agent(&mut self, spec: AgentSpec) -> (r: Result<u64, AgentError>)
        ensures
            spec.memory_limit == 0 ==> r == Err::<u64, AgentError>(AgentError::InvalidSpec)
                && final(self).agents() == old(self).agents(),
            spec.memory_limit != 0 ==> {
                &&& r == Ok::<u64, AgentError>(spec.id)
                &&& final(self).agents().len() == old(self).agents().len() + 1
                &&& forall|i: int|
                    0 <= i < old(self).agents().len() ==> #[trigger] final(self).agents()[i] == old(
                        self,
                    ).agents()[i]
                &&& final(self).agents().last().id_spec() == spec.id
                &&& final(self).agents().last().state_spec() == AgentState::Created
                &&& final(self).scheduler.entities().contains_key(spec.id)
                &&& final(self).scheduler.entities()[spec.id].weight == DEFAULT_WEIGHT
                &&& final(self).scheduler.entities()[spec.id].priority == DEFAULT_PRIORITY
                &&& final(self).scheduler.entities()[spec.id].time_slice == DEFAULT_TIME_SLICE
                &&& final(self).scheduler.runqueue() == sort_by_vruntime(
                    old(self).scheduler.runqueue().push(spec.id),
                    final(self).scheduler.entities(),
                )
            },
    {
        let agent = match Agent::new(spec) {
            Ok(a) => a,
            Err(e) => {
                return Err(e);
            },
        };
        let agent_id = agent.id();
        self.agents.push(agent);
        self.scheduler.add_agent(agent_id, DEFAULT_WEIGHT, DEFAULT_PRIORITY);
        Ok(agent_id)
    }

    /// A copy of the first agent with identifier `agent_id`.
    pub fn get_agent(&self, agent_id: u64) -> (r: Option<Agent>)
        ensures
            r is Some <==> agent_index(self.agents(), agent_id, 0) is Some,
            r matches Some(a) ==> {
                let k = agent_index(self.agents(), agent_id, 0)->0;
                &&& a.id_spec() == self.agents()[k].id_spec()
                &&& a.state_spec() == self.agents()[k].state_spec()
                &&& a.spec_of() == self.agents()[k].spec_of()
            },
    {
        let mut i: usize = 0;
        while i < self.agents.len()
            invariant
                i <= self.agents@.len(),
                agent_index(self.agents@, agent_id, 0) == agent_index(self.agents@, agent_id, i as int),
            decreases self.agents.len() - i,
        {
            if self.agents[i].id() == agent_id {
                return Some(self.agents[i].duplicate());
            }
            i = i + 1;
        }
        None
    }
}

} // verus!
