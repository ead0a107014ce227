//! Per-agent resource groups (cgroups-like).

use vstd::prelude::*;

verus! {

/// The resources grouped under one agent.
pub struct ResourceGroup {
    pub agent_id: u64,
    pub cpu_quota: u64,
    pub memory_quota: u64,
    pub io_quota: u64,
    pub network_quota: u64,
    pub fs_quota: u64,
    pub children: Vec<u64>,
}

impl ResourceGroup {
    /// A group with the default quotas (100% CPU, 1 GiB memory, 1000 IOPS,
    /// 100 MiB/s network, 10 GiB file system) and no children.
    pub fn new(agent_id: u64) -> (g: Self)
        ensures
            g.agent_id == agent_id,
            g.cpu_quota == 100,
            g.memory_quota == 1073741824,
            g.io_quota == 1000,
            g.network_quota == 104857600,
            g.fs_quota == 10737418240,
            g.children@ == Seq::<u64>::empty(),
    {
        ResourceGroup {
            agent_id,
            cpu_quota: 100,
            memory_quota: 1024 * 1024 * 1024,
            io_quota: 1000,
            network_quota: 100 * 1024 * 1024,
            fs_quota: 10 * 1024 * 1024 * 1024,
            children: Vec::new(),
        }
    }

    /// A copy of the group.
    pub fn duplicate(&self) -> (g: Self)
        ensures
            g.agent_id == self.agent_id,
            g.cpu_quota == self.cpu_quota,
            g.memory_quota == self.memory_quota,
            g.io_quota == self.io_quota,
            g.network_quota == self.network_quota,
            g.fs_quota == self.fs_quota,
            g.children@ == self.children@,
    {
        let mut children: Vec<u64> = Vec::new();
        let mut i: usize = 0;
        while i < self.children.len()
            invariant
                i <= self.children@.len(),
                children@ == self.children@.take(i as int),
            decreases self.children@.len() - i,
        {
            children.push(self.children[i]);
            i = i + 1;
            assert(children@ =~= self.children@.take(i as int));
        }
        assert(self.children@.take(self.children@.len() as int) =~= self.children@);
        ResourceGroup {
            agent_id: self.agent_id,
            cpu_quota: self.cpu_quota,
            memory_quota: self.memory_quota,
            io_quota: self.io_quota,
            network_quota: self.network_quota,
            fs_quota: self.fs_quota,
            children,
        }
    }
}

} // verus!
