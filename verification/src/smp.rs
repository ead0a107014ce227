//! Multiprocessor bookkeeping: counting processors from the ACPI MADT and
//! CPUID, per-CPU run queues, bringing processors on and off line, and load
//! balancing. Inter-processor interrupts are sent by the embedding code.

use vstd::prelude::*;
use crate::capability::{Capabilities, CapabilityToken, SUPERVISOR};
use crate::capability_system::{CapabilitySystem, has_capability};
use crate::scheduler::token_grants;
use crate::events::{KernelEventSystem, KernelEvent, EventType, event_view, published, publish_event};

verus! {

/// Offset of the first entry of the MADT, after its header.
pub const MADT_ENTRIES_OFFSET: u64 = 0x2C;

/// MADT entry type of a local APIC.
pub const MADT_LOCAL_APIC: u8 = 0;

/// MADT entry type of a local x2APIC.
pub const MADT_LOCAL_X2APIC: u8 = 9;

/// Information about one processor.
#[derive(Clone, Copy, PartialEq, Eq, Structural, Debug)]
pub struct CpuInfo {
    pub id: u32,
    pub apic_id: u32,
    pub online: bool,
    pub current_agent: Option<u64>,
}

/// Data kept for each processor.
pub struct PerCpuData {
    pub cpu_id: u32,
    pub apic_id: u32,
    pub runqueue: Vec<u64>,
    pub load: u64,
}

/// Why a processor operation failed.
#[derive(Clone, Copy, PartialEq, Eq, Structural, Debug)]
pub enum SmpError {
    NotInitialized,
    InvalidCpu,
    AlreadyOnline,
    AlreadyOffline,
    CannotStopBootCpu,
}

/// The table length recorded in an ACPI table header (bytes 4 to 7, little
/// endian).
pub open spec fn table_length(t: Seq<u8>) -> int {
    t[4] as int + t[5] as int * 0x100 + t[6] as int * 0x1_0000 + t[7] as int * 0x100_0000
}

/// The number of processor entries (local APIC or x2APIC) of the MADT `t`
/// of length `length`, walking the entries from `offset`. A zero entry length
/// ends the walk after that entry.
pub open spec fn madt_cpus_from(t: Seq<u8>, length: int, offset: int) -> nat
    decreases length - offset,
{
    if offset < 0 || offset >= length || offset + 1 >= t.len() {
        0
    } else {
        let here: nat = if t[offset] == MADT_LOCAL_APIC || t[offset] == MADT_LOCAL_X2APIC {
            1
        } else {
            0
        };
        if t[offset + 1] == 0 || offset + t[offset + 1] >= length {
            here
        } else {
            here + madt_cpus_from(t, length, offset + t[offset + 1])
        }
    }
}

/// The processor count of the MADT `t`: its processor entries, at least one.
pub open spec fn madt_cpu_count(t: Seq<u8>) -> u32 {
    let n = madt_cpus_from(t, table_length(t), MADT_ENTRIES_OFFSET as int);
    if n == 0 {
        1
    } else {
        n as u32
    }
}

/// A little-endian `u32` at `i`.
pub open spec fn le_u32_at(t: Seq<u8>, i: int) -> u32 {
    (t[i] as int + t[i + 1] as int * 0x100 + t[i + 2] as int * 0x1_0000 + t[i + 3] as int
        * 0x100_0000) as u32
}

/// The APIC identifier of the processor entry numbered `target` (counting
/// from `index` at `offset`), walking the MADT `t` of length `length`.
pub open spec fn madt_apic_id_from(t: Seq<u8>, length: int, offset: int, index: u32, target: u32) -> Option<
    u32,
>
    decreases length - offset,
{
    if offset < 0 || offset >= length || offset + 1 >= t.len() {
        None
    } else {
        let kind = t[offset];
        if kind == MADT_LOCAL_APIC && index == target {
            if offset + 3 < t.len() {
                Some(t[offset + 3] as u32)
            } else {
                None
            }
        } else if kind == MADT_LOCAL_X2APIC && index == target {
            if offset + 7 < t.len() {
                Some(le_u32_at(t, offset + 4))
            } else {
                None
            }
        } else if t[offset + 1] == 0 || offset + t[offset + 1] >= length {
            None
        } else {
            let next_index = if kind == MADT_LOCAL_APIC || kind == MADT_LOCAL_X2APIC {
                (index + 1) as u32
            } else {
                index
            };
            madt_apic_id_from(t, length, offset + t[offset + 1], next_index, target)
        }
    }
}

/// The table length from an ACPI table header.
fn read_table_length(table: &[u8]) -> (n: u64)
    requires
        table@.len() >= 8,
    ensures
        n == table_length(table@),
{
    table[4] as u64 + table[5] as u64 * 0x100 + table[6] as u64 * 0x1_0000 + table[7] as u64
        * 0x100_0000
}

proof fn lemma_madt_count_bound(t: Seq<u8>, length: int, offset: int)
    requires
        offset >= 0,
    ensures
        madt_cpus_from(t, length, offset) <= if length > offset {
            length - offset
        } else {
            0
        },
    decreases length - offset,
{
    if offset < length && offset + 1 < t.len() && t[offset + 1] != 0 && offset + t[offset + 1]
        < length {
        lemma_madt_count_bound(t, length, offset + t[offset + 1]);
    }
}

/// Counts the processors listed in the MADT `table`: its local APIC and
/// x2APIC entries, and at least one.
pub fn parse_madt_cpu_count(table: &[u8]) -> (n: u32)
    requires
        table@.len() >= 8,
    ensures
        n == madt_cpu_count(table@),
        n >= 1,
{
    let length = read_table_length(table);
    let mut offset: u64 = MADT_ENTRIES_OFFSET;
    let mut count: u32 = 0;
    proof {
        lemma_madt_count_bound(table@, length as int, offset as int);
    }
    while offset < length && offset + 1 < table.len() as u64
        invariant_except_break
            count + madt_cpus_from(table@, length as int, offset as int) == madt_cpus_from(
                table@,
                length as int,
                MADT_ENTRIES_OFFSET as int,
            ),
        invariant
            length == table_length(table@),
            length < 0x1_0000_0000,
            offset >= MADT_ENTRIES_OFFSET,
            offset < length + 256,
            count <= madt_cpus_from(table@, length as int, MADT_ENTRIES_OFFSET as int),
            madt_cpus_from(table@, length as int, MADT_ENTRIES_OFFSET as int) <= length,
        ensures
            count == madt_cpus_from(table@, length as int, MADT_ENTRIES_OFFSET as int),
        decreases length + 256 - offset,
    {
        let entry_type = table[offset as usize];
        let entry_length = table[offset as usize + 1] as u64;
        proof {
            lemma_madt_count_bound(table@, length as int, offset as int);
        }
        if entry_type == MADT_LOCAL_APIC || entry_type == MADT_LOCAL_X2APIC {
            count = count + 1;
        }
        if entry_length == 0 || offset + entry_length >= length {
            break;
        }
        offset = offset + entry_length;
    }
    if count == 0 {
        1
    } else {
        count
    }
}

/// The APIC identifier of the processor numbered `target_cpu_index` in the
/// MADT `table`: byte 3 of a local APIC entry, or the little-endian word at
/// byte 4 of an x2APIC entry.
pub fn parse_madt_apic_id(table: &[u8], target_cpu_index: u32) -> (r: Option<u32>)
    requires
        table@.len() >= 8,
    ensures
        r == madt_apic_id_from(
            table@,
            table_length(table@),
            MADT_ENTRIES_OFFSET as int,
            0,
            target_cpu_index,
        ),
{
    let length = read_table_length(table);
    let mut offset: u64 = MADT_ENTRIES_OFFSET;
    let mut index: u32 = 0;
    while offset < length && offset + 1 < table.len() as u64
        invariant
            length == table_length(table@),
            offset >= MADT_ENTRIES_OFFSET,
            index <= target_cpu_index,
            length < 0x1_0000_0000,
            offset < length + 256,
            madt_apic_id_from(table@, length as int, offset as int, index, target_cpu_index)
                == madt_apic_id_from(
                table@,
                length as int,
                MADT_ENTRIES_OFFSET as int,
                0,
                target_cpu_index,
            ),
        decreases length + 256 - offset,
    {
        let o = offset as usize;
        let entry_type = table[o];
        let entry_length = table[o + 1] as u64;
        if entry_type == MADT_LOCAL_APIC {
            if index == target_cpu_index {
                if offset + 3 < table.len() as u64 {
                    return Some(table[o + 3] as u32);
                }
                return None;
            }
            index = index + 1;
        } else if entry_type == MADT_LOCAL_X2APIC {
            if index == target_cpu_index {
                if offset + 7 < table.len() as u64 {
                    let id = table[o + 4] as u32 + table[o + 5] as u32 * 0x100 + table[o + 6] as u32
                        * 0x1_0000 + table[o + 7] as u32 * 0x100_0000;
                    return Some(id);
                }
                return None;
            }
            index = index + 1;
        }
        if entry_length == 0 || offset + entry_length >= length {
            return None;
        }
        offset = offset + entry_length;
    }
    None
}

/// The processor count: the MADT's count when it has a positive one, or
/// else what CPUID leaf 0xB reports. `max_leaf` is EAX of CPUID leaf 0, and
/// `topology` is ECX and EBX of leaf 0xB; the walk reads the same leaf at
/// most eleven times.
pub fn detect_cpu_count(madt_count: Option<u32>, max_leaf: u32, topology: (u32, u32)) -> (n: u32)
    ensures
        n == match madt_count {
            Some(c) if c > 0 => c,
            _ => 1u32,
        },
{
    match madt_count {
        Some(c) => {
            if c > 0 {
                return c;
            }
        },
        None => {},
    }
    if max_leaf >= 0xB {
        let mut level: u32 = 0;
        let mut total_logical: u32 = 0;
        loop
            invariant
                level <= 10,
                total_logical == 0 || (topology.0 >> 8u32) & 0xFF == 0,
            decreases 10 - level,
        {
            let level_type = (topology.0 >> 8u32) & 0xFF;
            if level_type == 0 {
                total_logical = topology.1 & 0xFFFF;
            } else if level_type == 1 {
                let cores_per_package = (topology.1 >> 16u32) & 0xFFFF;
                if cores_per_package > 0 && total_logical > 0 {
                    return cores_per_package * total_logical;
                }
            } else {
                break;
            }
            if level >= 10 {
                break;
            }
            level = level + 1;
        }
    }
    1
}

/// The APIC identifier in bits 24 to 31 of the value read from the APIC
/// base register.
pub fn current_cpu_id(apic_base: u64) -> (id: u32)
    ensures
        id == (apic_base >> 24u64) & 0xFF,
{
    proof {
        assert((apic_base >> 24u64) & 0xFF <= 0xFF) by (bit_vector);
    }
    ((apic_base >> 24u64) & 0xFF) as u32
}

/// The number of processors on line among `cpus`.
pub open spec fn online_count(cpus: Seq<CpuInfo>) -> nat
    decreases cpus.len(),
{
    if cpus.len() == 0 {
        0
    } else {
        online_count(cpus.drop_last()) + if cpus.last().online {
            1nat
        } else {
            0nat
        }
    }
}

/// Whether `h` is the first index of greatest load.
pub open spec fn first_max(loads: Seq<u64>, h: int) -> bool {
    &&& 0 <= h < loads.len()
    &&& forall|k: int| 0 <= k < loads.len() ==> #[trigger] loads[k] <= loads[h]
    &&& forall|k: int| 0 <= k < h ==> #[trigger] loads[k] < loads[h]
}

/// Whether `l` is the last index of least load.
pub open spec fn last_min(loads: Seq<u64>, l: int) -> bool {
    &&& 0 <= l < loads.len()
    &&& forall|k: int| 0 <= k < loads.len() ==> loads[l] <= #[trigger] loads[k]
    &&& forall|k: int| l < k < loads.len() ==> loads[l] < #[trigger] loads[k]
}

/// The first index of greatest load, and the last of least load, are
/// each unique.
proof fn lemma_extremes_unique(loads: Seq<u64>, h1: int, h2: int, l1: int, l2: int)
    requires
        first_max(loads, h1),
        first_max(loads, h2),
        last_min(loads, l1),
        last_min(loads, l2),
    ensures
        h1 == h2,
        l1 == l2,
{
    if h1 < h2 {
        assert(loads[h1] < loads[h2]);
        assert(loads[h2] <= loads[h1]);
    } else if h2 < h1 {
        assert(loads[h2] < loads[h1]);
        assert(loads[h1] <= loads[h2]);
    }
    if l1 < l2 {
        assert(loads[l2] < loads[l1]);
        assert(loads[l1] <= loads[l2]);
    } else if l2 < l1 {
        assert(loads[l1] < loads[l2]);
        assert(loads[l2] <= loads[l1]);
    }
}

/// The event that announces a processor going on or off line.
pub open spec fn performance_notice(now: u64) -> Seq<(EventType, u64, Option<u64>, Seq<u8>)> {
    seq![(EventType::Performance, now, None, Seq::<u8>::empty())]
}

/// The first processor from `from` on, other than `c`, that is on line.
pub open spec fn first_online_except(cpus: Seq<CpuInfo>, c: int, from: int) -> Option<int>
    decreases cpus.len() - from,
{
    if from < 0 || from >= cpus.len() {
        None
    } else if from != c && cpus[from].online {
        Some(from)
    } else {
        first_online_except(cpus, c, from + 1)
    }
}

/// The run queues after processor `c` hands its agents to `target`: they
/// go, in order, to the end of the target's queue, and `c`'s queue is
/// empty; without a target nothing moves.
pub open spec fn migrated(queues: Seq<Seq<u64>>, c: int, target: Option<int>) -> Seq<Seq<u64>> {
    match target {
        Some(t) => queues.update(t, queues[t] + queues[c]).update(c, Seq::empty()),
        None => queues,
    }
}

/// The processor found is another one, on line.
proof fn lemma_first_online_bounds(cpus: Seq<CpuInfo>, c: int, from: int)
    ensures
        first_online_except(cpus, c, from) matches Some(t) ==> 0 <= t < cpus.len() && t != c
            && cpus[t].online,
    decreases cpus.len() - from,
{
    if 0 <= from < cpus.len() && !(from != c && cpus[from].online) {
        lemma_first_online_bounds(cpus, c, from + 1);
    }
}

/// The processors and their per-processor data.
pub struct SmpManager {
    cpus: Vec<CpuInfo>,
    per_cpu_data: Vec<PerCpuData>,
    boot_cpu: u32,
}

impl SmpManager {
    /// The processors, by identifier.
    pub closed spec fn cpus(&self) -> Seq<CpuInfo> {
        self.cpus@
    }

    /// The run queue of each processor.
    pub closed spec fn runqueues(&self) -> Seq<Seq<u64>> {
        self.per_cpu_data@.map_values(|d: PerCpuData| d.runqueue@)
    }

    /// The load of each processor.
    pub closed spec fn loads(&self) -> Seq<u64> {
        self.per_cpu_data@.map_values(|d: PerCpuData| d.load)
    }

    /// The processor that booted the system.
    pub closed spec fn boot(&self) -> u32 {
        self.boot_cpu
    }

    /// What the invariant says: one run queue and one load per processor,
    /// no more processors than `u32` numbers, and each processor under its
    /// own number.
    pub proof fn lemma_wf(&self)
        requires
            self.wf(),
        ensures
            self.runqueues().len() == self.cpus().len(),
            self.loads().len() == self.cpus().len(),
            self.cpus().len() <= u32::MAX,
            forall|i: int| 0 <= i < self.cpus().len() ==> #[trigger] self.cpus()[i].id == i,
    {
    }

    /// Whether the boot processor exists and is on line.
    pub open spec fn boot_online(&self) -> bool {
        self.boot() < self.cpus().len() && self.cpus()[self.boot() as int].online
    }

    /// One data record per processor, numbered like the processors.
    pub closed spec fn wf(&self) -> bool {
        &&& self.cpus@.len() == self.per_cpu_data@.len()
        &&& self.cpus@.len() <= u32::MAX
        &&& forall|i: int| 0 <= i < self.cpus@.len() ==> #[trigger] self.cpus@[i].id == i
    }

    /// Processors `0 .. cpu_count` with the given APIC identifiers, empty run
    /// queues and no load; only the boot processor is on line. A
    /// [`EventType::Performance`] event at `now` announces them.
    pub fn init(
        cpu_count: u32,
        boot_cpu: u32,
        apic_ids: &Vec<u32>,
        events: &mut Option<KernelEventSystem>,
        now: u64,
    ) -> (m: Self)
        requires
            apic_ids@.len() >= cpu_count,
        ensures
            published(*old(events), *final(events), performance_notice(now)),
            m.wf(),
            boot_cpu < cpu_count ==> m.boot_online(),
            m.boot() == boot_cpu,
            m.cpus().len() == cpu_count,
            forall|i: int|
                0 <= i < cpu_count ==> #[trigger] m.cpus()[i] == (CpuInfo {
                    id: i as u32,
                    apic_id: apic_ids@[i],
                    online: i == boot_cpu,
                    current_agent: None,
                }),
            forall|i: int| 0 <= i < cpu_count ==> #[trigger] m.runqueues()[i] == Seq::<u64>::empty(),
            forall|i: int| 0 <= i < cpu_count ==> #[trigger] m.loads()[i] == 0,
    {
        let mut cpus: Vec<CpuInfo> = Vec::new();
        let mut per_cpu_data: Vec<PerCpuData> = Vec::new();
        let mut i: u32 = 0;
        while i < cpu_count
            invariant
                i <= cpu_count,
                apic_ids@.len() >= cpu_count,
                cpus@.len() == i,
                per_cpu_data@.len() == i,
                forall|k: int|
                    0 <= k < i ==> #[trigger] cpus@[k] == (CpuInfo {
                        id: k as u32,
                        apic_id: apic_ids@[k],
                        online: k == boot_cpu,
                        current_agent: None,
                    }),
                forall|k: int|
                    0 <= k < i ==> #[trigger] per_cpu_data@[k].runqueue@ == Seq::<u64>::empty()
                        && per_cpu_data@[k].load == 0,
            decreases cpu_count - i,
        {
            let apic_id = apic_ids[i as usize];
            cpus.push(CpuInfo { id: i, apic_id, online: i == boot_cpu, current_agent: None });
            per_cpu_data.push(PerCpuData { cpu_id: i, apic_id, runqueue: Vec::new(), load: 0 });
            i = i + 1;
        }
        let m = SmpManager { cpus, per_cpu_data, boot_cpu };
        let notice = KernelEvent {
            event_type: EventType::Performance,
            timestamp: now,
            agent_id: None,
            data: Vec::new(),
        };
        proof {
            assert(seq![event_view(notice)] =~= performance_notice(now));
        }
        publish_event(events, notice);
        proof {
            assert forall|k: int| 0 <= k < cpu_count implies #[trigger] m.loads()[k] == 0 by {
                assert(m.per_cpu_data@[k].runqueue@ == Seq::<u64>::empty());
                assert(m.per_cpu_data@[k].load == 0);
            }
            assert forall|k: int| 0 <= k < cpu_count implies #[trigger] m.runqueues()[k] == Seq::<
                u64,
            >::empty() by {
                assert(m.per_cpu_data@[k].runqueue@ == Seq::<u64>::empty());
            }
        }
        m
    }

    /// Brings processor `cpu_id` on line, announced by a
    /// [`EventType::Performance`] event at `now`; the caller then wakes it
    /// with INIT and start-up interrupts to the returned APIC identifier.
    pub fn start_cpu(&mut self, cpu_id: u32, events: &mut Option<KernelEventSystem>, now: u64) -> (r:
        Result<u32, SmpError>)
        requires
            old(self).wf(),
        ensures
            r is Ok ==> published(*old(events), *final(events), performance_notice(now)),
            r is Err ==> *final(events) == *old(events),
            old(self).boot_online() ==> final(self).boot_online(),
            final(self).wf(),
            final(self).runqueues() == old(self).runqueues(),
            final(self).loads() == old(self).loads(),
            final(self).boot() == old(self).boot(),
            r == if cpu_id >= old(self).cpus().len() {
                Err::<u32, SmpError>(SmpError::InvalidCpu)
            } else if old(self).cpus()[cpu_id as int].online {
                Err(SmpError::AlreadyOnline)
            } else {
                Ok(old(self).cpus()[cpu_id as int].apic_id)
            },
            final(self).cpus() == if r is Ok {
                old(self).cpus().update(
                    cpu_id as int,
                    CpuInfo { online: true, ..old(self).cpus()[cpu_id as int] },
                )
            } else {
                old(self).cpus()
            },
    {
        let idx = cpu_id as usize;
        if idx >= self.cpus.len() {
            return Err(SmpError::InvalidCpu);
        }
        let cpu = self.cpus[idx];
        if cpu.online {
            return Err(SmpError::AlreadyOnline);
        }
        self.cpus.set(idx, CpuInfo { online: true, ..cpu });
        let notice = KernelEvent {
            event_type: EventType::Performance,
            timestamp: now,
            agent_id: None,
            data: Vec::new(),
        };
        proof {
            assert(seq![event_view(notice)] =~= performance_notice(now));
        }
        publish_event(events, notice);
        Ok(cpu.apic_id)
    }

    /// Takes processor `cpu_id` off line. Its agents move to the end of the
    /// run queue of the first other processor on line, when there is one;
    /// a [`EventType::Performance`] event at `now` announces the change.
    pub fn stop_cpu(&mut self, cpu_id: u32, events: &mut Option<KernelEventSystem>, now: u64) -> (r:
        Result<(), SmpError>)
        requires
            old(self).wf(),
        ensures
            final(self).wf(),
            final(self).loads() == old(self).loads(),
            final(self).boot() == old(self).boot(),
            r == if cpu_id >= old(self).cpus().len() {
                Err::<(), SmpError>(SmpError::InvalidCpu)
            } else if !old(self).cpus()[cpu_id as int].online {
                Err(SmpError::AlreadyOffline)
            } else if cpu_id == old(self).boot() {
                Err(SmpError::CannotStopBootCpu)
            } else {
                Ok(())
            },
            r is Ok ==> final(self).cpus() == old(self).cpus().update(
                cpu_id as int,
                CpuInfo { online: false, ..old(self).cpus()[cpu_id as int] },
            ),
            r is Ok ==> final(self).runqueues() == migrated(
                old(self).runqueues(),
                cpu_id as int,
                first_online_except(old(self).cpus(), cpu_id as int, 0),
            ),
            r is Ok ==> published(*old(events), *final(events), performance_notice(now)),
            old(self).boot_online() ==> final(self).boot_online(),
            r is Err ==> final(self).cpus() == old(self).cpus() && final(self).runqueues() == old(
                self,
            ).runqueues() && *final(events) == *old(events),
    {
        let idx = cpu_id as usize;
        if idx >= self.cpus.len() {
            return Err(SmpError::InvalidCpu);
        }
        let cpu = self.cpus[idx];
        if !cpu.online {
            return Err(SmpError::AlreadyOffline);
        }
        if cpu_id == self.boot_cpu {
            return Err(SmpError::CannotStopBootCpu);
        }
        let mut target: Option<usize> = None;
        let mut j: usize = 0;
        while j < self.cpus.len()
            invariant_except_break
                target is None,
                first_online_except(self.cpus@, idx as int, 0) == first_online_except(
                    self.cpus@,
                    idx as int,
                    j as int,
                ),
            invariant
                self.wf(),
                *self == *old(self),
                idx < self.cpus@.len(),
                j <= self.cpus@.len(),
            ensures
                match target {
                    Some(t) => first_online_except(self.cpus@, idx as int, 0) == Some(t as int),
                    None => first_online_except(self.cpus@, idx as int, 0) is None,
                },
            decreases self.cpus.len() - j,
        {
            if j != idx && self.cpus[j].online {
                target = Some(j);
                break;
            }
            j = j + 1;
        }
        proof {
            lemma_first_online_bounds(self.cpus@, idx as int, 0);
        }
        if let Some(t) = target {
            let moved = self.take_queue(idx);
            self.extend_queue(t, moved);
        }
        proof {
            assert(self.runqueues() =~= migrated(
                old(self).runqueues(),
                cpu_id as int,
                first_online_except(old(self).cpus(), cpu_id as int, 0),
            ));
        }
        self.cpus.set(idx, CpuInfo { online: false, ..cpu });
        let notice = KernelEvent {
            event_type: EventType::Performance,
            timestamp: now,
            agent_id: None,
            data: Vec::new(),
        };
        proof {
            assert(seq![event_view(notice)] =~= performance_notice(now));
        }
        publish_event(events, notice);
        Ok(())
    }

    /// Empties the run queue of processor `idx` and returns its agents.
    fn take_queue(&mut self, idx: usize) -> (q: Vec<u64>)
        requires
            old(self).wf(),
            idx < old(self).cpus().len(),
        ensures
            final(self).wf(),
            final(self).cpus() == old(self).cpus(),
            final(self).boot() == old(self).boot(),
            final(self).loads() == old(self).loads(),
            q@ == old(self).runqueues()[idx as int],
            final(self).runqueues() == old(self).runqueues().update(idx as int, Seq::<u64>::empty()),
    {
        let ghost before = self.per_cpu_data@;
        let mut data = self.per_cpu_data.remove(idx);
        let q = data.runqueue;
        data.runqueue = Vec::new();
        self.per_cpu_data.insert(idx, data);
        proof {
            assert(self.per_cpu_data@ =~= before.update(idx as int, data));
            assert(self.runqueues() =~= old(self).runqueues().update(idx as int, Seq::<u64>::empty()));
            assert(self.loads() =~= old(self).loads());
        }
        q
    }

    /// Appends `agents` to the run queue of processor `idx`.
    fn extend_queue(&mut self, idx: usize, agents: Vec<u64>)
        requires
            old(self).wf(),
            idx < old(self).cpus().len(),
        ensures
            final(self).wf(),
            final(self).cpus() == old(self).cpus(),
            final(self).boot() == old(self).boot(),
            final(self).loads() == old(self).loads(),
            final(self).runqueues() == old(self).runqueues().update(
                idx as int,
                old(self).runqueues()[idx as int] + agents@,
            ),
    {
        let ghost before = self.per_cpu_data@;
        let mut data = self.per_cpu_data.remove(idx);
        let ghost q0 = data.runqueue@;
        let mut k: usize = 0;
        while k < agents.len()
            invariant
                k <= agents@.len(),
                data.runqueue@ == q0 + agents@.subrange(0, k as int),
                data.load == before[idx as int].load,
            decreases agents.len() - k,
        {
            proof {
                assert(q0 + agents@.subrange(0, k as int + 1) =~= (q0 + agents@.subrange(0, k as int)).push(
                    agents@[k as int],
                ));
            }
            data.runqueue.push(agents[k]);
            k = k + 1;
        }
        proof {
            assert(agents@.subrange(0, agents@.len() as int) =~= agents@);
        }
        self.per_cpu_data.insert(idx, data);
        proof {
            assert(self.per_cpu_data@ =~= before.update(idx as int, data));
            assert(self.runqueues() =~= old(self).runqueues().update(
                idx as int,
                old(self).runqueues()[idx as int] + agents@,
            ));
            assert(self.loads() =~= old(self).loads());
        }
    }

    /// Moves one agent from the most loaded processor to the least loaded
    /// one when the first carries more than twice the load of the second.
    /// The most loaded is the first of greatest load; the least loaded is
    /// the last of least load.
    pub fn load_balance(&mut self) -> (moved: Option<u64>)
        requires
            old(self).wf(),
            forall|i: int| 0 <= i < old(self).loads().len() ==> #[trigger] old(self).loads()[i] * 2 <= u64::MAX,
        ensures
            final(self).wf(),
            final(self).cpus() == old(self).cpus(),
            final(self).loads() == old(self).loads(),
            final(self).boot() == old(self).boot(),
            moved is None ==> final(self).runqueues() == old(self).runqueues(),
            old(self).loads().len() < 2 ==> moved is None,
            forall|high: int, low: int|
                first_max(old(self).loads(), high) && last_min(old(self).loads(), low) ==> (moved is Some
                    <==> (old(self).loads()[high] > old(self).loads()[low] * 2
                    && old(self).runqueues()[high].len() > 0)),
            moved matches Some(agent) ==> exists|high: int, low: int|
                {
                    &&& first_max(old(self).loads(), high)
                    &&& last_min(old(self).loads(), low)
                    &&& old(self).loads()[high] > old(self).loads()[low] * 2
                    &&& old(self).runqueues()[high].len() > 0
                    &&& agent == old(self).runqueues()[high].last()
                    &&& final(self).runqueues() == old(self).runqueues().update(
                        high,
                        old(self).runqueues()[high].drop_last(),
                    ).update(low, old(self).runqueues()[low].push(agent))
                },
    {
        let n = self.per_cpu_data.len();
        if n < 2 {
            return None;
        }
        let mut high: usize = 0;
        let mut low: usize = 0;
        let mut i: usize = 1;
        while i < n
            invariant
                n == self.per_cpu_data@.len(),
                1 <= i <= n,
                high < i,
                low < i,
                forall|k: int| 0 <= k < i ==> #[trigger] self.loads()[k] <= self.loads()[high as int],
                forall|k: int| 0 <= k < high ==> #[trigger] self.loads()[k] < self.loads()[high as int],
                forall|k: int| 0 <= k < i ==> self.loads()[low as int] <= #[trigger] self.loads()[k],
                forall|k: int| low < k < i ==> self.loads()[low as int] < #[trigger] self.loads()[k],
            decreases n - i,
        {
            let load = self.per_cpu_data[i].load;
            if load > self.per_cpu_data[high].load {
                high = i;
            }
            if load <= self.per_cpu_data[low].load {
                low = i;
            }
            i = i + 1;
        }
        let high_load = self.per_cpu_data[high].load;
        let low_load = self.per_cpu_data[low].load;
        assert(self.loads()[low as int] * 2 <= u64::MAX);
        proof {
            assert(first_max(old(self).loads(), high as int));
            assert(last_min(old(self).loads(), low as int));
            assert forall|h: int, l: int|
                first_max(old(self).loads(), h) && last_min(old(self).loads(), l) implies h == high && l
                == low by {
                lemma_extremes_unique(old(self).loads(), h, high as int, l, low as int);
            }
        }
        if high_load > low_load * 2 {
            if self.per_cpu_data[high].runqueue.len() > 0 {
                let ghost before = self.per_cpu_data@;
                let ghost qs = self.runqueues();
                let mut hdata = self.per_cpu_data.remove(high);
                let agent = hdata.runqueue.pop().unwrap();
                self.per_cpu_data.insert(high, hdata);
                let mut ldata = self.per_cpu_data.remove(low);
                ldata.runqueue.push(agent);
                self.per_cpu_data.insert(low, ldata);
                proof {
                    assert(first_max(old(self).loads(), high as int));
                    assert(last_min(old(self).loads(), low as int));
                    assert(self.runqueues() =~= qs.update(high as int, qs[high as int].drop_last()).update(
                        low as int,
                        qs[low as int].push(agent),
                    ));
                    assert(self.loads() =~= old(self).loads());
                }
                return Some(agent);
            }
        }
        None
    }

    /// Puts `agent_id` on the run queue of processor `cpu_id` unless it is
    /// there already. The caller's token must grant SUPERVISOR, and the
    /// processor must exist and be on line.
    pub fn set_agent_affinity(
        &mut self,
        agent_id: u64,
        cpu_id: u32,
        capability: Option<&CapabilityToken>,
        system: Option<&CapabilitySystem>,
    ) -> (r: Result<(), SmpError>)
        requires
            old(self).wf(),
        ensures
            final(self).wf(),
            final(self).cpus() == old(self).cpus(),
            final(self).loads() == old(self).loads(),
            final(self).boot() == old(self).boot(),
            r == if !token_grants(system, capability, SUPERVISOR) {
                Err::<(), SmpError>(SmpError::InvalidCpu)
            } else if cpu_id >= old(self).cpus().len() || !old(self).cpus()[cpu_id as int].online {
                Err(SmpError::InvalidCpu)
            } else {
                Ok(())
            },
            final(self).runqueues() == if r is Ok && !old(self).runqueues()[cpu_id as int].contains(
                agent_id,
            ) {
                old(self).runqueues().update(
                    cpu_id as int,
                    old(self).runqueues()[cpu_id as int].push(agent_id),
                )
            } else {
                old(self).runqueues()
            },
    {
        if capability.is_none() {
            return Err(SmpError::InvalidCpu);
        }
        if !has_capability(system, capability, Capabilities::from_bits(SUPERVISOR)) {
            return Err(SmpError::InvalidCpu);
        }
        let idx = cpu_id as usize;
        if idx >= self.cpus.len() || !self.cpus[idx].online {
            return Err(SmpError::InvalidCpu);
        }
        let mut present = false;
        let mut k: usize = 0;
        while k < self.per_cpu_data[idx].runqueue.len()
            invariant
                idx < self.per_cpu_data@.len(),
                k <= self.per_cpu_data@[idx as int].runqueue@.len(),
                present <==> self.per_cpu_data@[idx as int].runqueue@.subrange(0, k as int).contains(
                    agent_id,
                ),
            decreases self.per_cpu_data@[idx as int].runqueue@.len() - k,
        {
            proof {
                let q = self.per_cpu_data@[idx as int].runqueue@;
                let sub = q.subrange(0, k as int);
                let sub1 = q.subrange(0, k as int + 1);
                assert(sub1 =~= sub.push(q[k as int]));
                if sub.contains(agent_id) {
                    let w = choose|w: int| 0 <= w < sub.len() && sub[w] == agent_id;
                    assert(sub1[w] == agent_id);
                }
                if q[k as int] == agent_id {
                    assert(sub1[k as int] == agent_id);
                }
                if sub1.contains(agent_id) {
                    let w = choose|w: int| 0 <= w < sub1.len() && sub1[w] == agent_id;
                    if w < k {
                        assert(sub[w] == agent_id);
                    }
                }
                assert(sub1.contains(agent_id) <==> (sub.contains(agent_id) || q[k as int]
                    == agent_id));
            }
            if self.per_cpu_data[idx].runqueue[k] == agent_id {
                present = true;
            }
            k = k + 1;
        }
        proof {
            let q = self.per_cpu_data@[idx as int].runqueue@;
            assert(q.subrange(0, q.len() as int) =~= q);
        }
        if !present {
            let ghost qs = self.runqueues();
            let mut data = self.per_cpu_data.remove(idx);
            data.runqueue.push(agent_id);
            self.per_cpu_data.insert(idx, data);
            proof {
                assert(self.runqueues() =~= qs.update(idx as int, qs[idx as int].push(agent_id)));
                assert(self.loads() =~= old(self).loads());
            }
        }
        Ok(())
    }

    /// The number of processors.
    pub fn cpu_count(&self) -> (n: u32)
        requires
            self.wf(),
        ensures
            n == self.cpus().len(),
    {
        self.cpus.len() as u32
    }

    /// The number of processors on line.
    pub fn online_cpu_count(&self) -> (n: u32)
        requires
            self.wf(),
        ensures
            n == online_count(self.cpus()),
            self.boot_online() ==> 1 <= n <= self.cpus().len(),
    {
        proof {
            if self.boot_online() {
                law_online_count_bounds(self.cpus(), self.boot() as int);
            }
        }
        let mut n: u32 = 0;
        let mut i: usize = 0;
        while i < self.cpus.len()
            invariant
                self.wf(),
                i <= self.cpus@.len(),
                n == online_count(self.cpus@.subrange(0, i as int)),
                n <= i,
            decreases self.cpus.len() - i,
        {
            proof {
                assert(self.cpus@.subrange(0, i as int + 1).drop_last() =~= self.cpus@.subrange(
                    0,
                    i as int,
                ));
            }
            if self.cpus[i].online {
                n = n + 1;
            }
            i = i + 1;
        }
        proof {
            assert(self.cpus@.subrange(0, self.cpus@.len() as int) =~= self.cpus@);
        }
        n
    }

    /// The data of processor `cpu_id`, if it exists.
    pub fn get_per_cpu_data(&self, cpu_id: u32) -> (r: Option<&PerCpuData>)
        ensures
            r is Some <==> cpu_id < self.runqueues().len(),
            r matches Some(d) ==> d.runqueue@ == self.runqueues()[cpu_id as int] && d.load
                == self.loads()[cpu_id as int],
    {
        let idx = cpu_id as usize;
        if idx < self.per_cpu_data.len() {
            Some(&self.per_cpu_data[idx])
        } else {
            None
        }
    }
}

/// Starting and then stopping a processor other than the boot processor
/// leaves it off line as before.
pub proof fn law_stop_undoes_start(c: CpuInfo)
    requires
        !c.online,
    ensures
        (CpuInfo { online: false, ..(CpuInfo { online: true, ..c }) }) == c,
{
}

/// How many times `agent` stands in the run queues `qs`, all processors
/// together.
pub open spec fn agent_count(qs: Seq<Seq<u64>>, agent: u64) -> int
    decreases qs.len(),
{
    if qs.len() == 0 {
        0
    } else {
        agent_count(qs.drop_last(), agent) + qs.last().to_multiset().count(agent)
    }
}

proof fn lemma_count_update(qs: Seq<Seq<u64>>, i: int, q: Seq<u64>, agent: u64)
    requires
        0 <= i < qs.len(),
    ensures
        agent_count(qs.update(i, q), agent) == agent_count(qs, agent) - qs[i].to_multiset().count(agent)
            + q.to_multiset().count(agent),
    decreases qs.len(),
{
    if i < qs.len() - 1 {
        assert(qs.update(i, q).drop_last() =~= qs.drop_last().update(i, q));
        lemma_count_update(qs.drop_last(), i, q, agent);
    } else {
        assert(qs.update(i, q).drop_last() =~= qs.drop_last());
    }
}

/// Moving an agent from one run queue to the end of another, as load
/// balancing does, loses no agent and adds none: every agent stands in the
/// run queues as often as before.
pub proof fn law_balancing_keeps_agents(qs: Seq<Seq<u64>>, high: int, low: int, agent: u64)
    requires
        0 <= high < qs.len(),
        0 <= low < qs.len(),
        high != low,
        qs[high].len() > 0,
    ensures
        agent_count(
            qs.update(high, qs[high].drop_last()).update(low, qs[low].push(qs[high].last())),
            agent,
        ) == agent_count(qs, agent),
{
    broadcast use vstd::seq_lib::group_to_multiset_ensures;
    let q = qs[high];
    let moved = q.last();
    let mid = qs.update(high, q.drop_last());
    lemma_count_update(qs, high, q.drop_last(), agent);
    lemma_count_update(mid, low, qs[low].push(moved), agent);
    assert(q.drop_last().push(moved) =~= q);
    assert(q.drop_last().push(moved).to_multiset() =~= q.drop_last().to_multiset().insert(moved));
    assert(qs[low].push(moved).to_multiset() =~= qs[low].to_multiset().insert(moved));
}

/// Stopping a processor moves its agents without losing or adding any:
/// after [`migrated`], every agent stands in the run queues as often as
/// before, when the agents have a processor to go to.
pub proof fn law_stopping_keeps_agents(qs: Seq<Seq<u64>>, c: int, t: int, agent: u64)
    requires
        0 <= c < qs.len(),
        0 <= t < qs.len(),
        t != c,
    ensures
        agent_count(migrated(qs, c, Some(t)), agent) == agent_count(qs, agent),
{
    broadcast use vstd::multiset::group_multiset_axioms;
    let mid = qs.update(t, qs[t] + qs[c]);
    lemma_count_update(qs, t, qs[t] + qs[c], agent);
    lemma_count_update(mid, c, Seq::empty(), agent);
    vstd::seq_lib::lemma_multiset_commutative(qs[t], qs[c]);
    assert(Seq::<u64>::empty().to_multiset().count(agent) == 0) by {
        broadcast use vstd::seq_lib::group_to_multiset_ensures;
    }
}

/// While the boot processor is on line, at least one processor is, and
/// never more than there are.
pub proof fn law_online_count_bounds(cpus: Seq<CpuInfo>, boot: int)
    requires
        0 <= boot < cpus.len(),
        cpus[boot].online,
    ensures
        1 <= online_count(cpus) <= cpus.len(),
    decreases cpus.len(),
{
    lemma_online_at_most(cpus);
    if boot < cpus.len() - 1 {
        law_online_count_bounds(cpus.drop_last(), boot);
    }
}

proof fn lemma_online_at_most(cpus: Seq<CpuInfo>)
    ensures
        online_count(cpus) <= cpus.len(),
    decreases cpus.len(),
{
    if cpus.len() > 0 {
        lemma_online_at_most(cpus.drop_last());
    }
}

} // verus!
