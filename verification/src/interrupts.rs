//! Interrupt bookkeeping and decisions: PS/2 scan-code decoding, handler
//! registration, per-IRQ statistics, end-of-interrupt routing and PIC masks.
//! Port and CPU instructions are performed by the embedding code.

use vstd::prelude::*;
use std::collections::BTreeMap;

verus! {

broadcast use vstd::std_specs::btree::group_btree_axioms;

/// The key code of a PS/2 set-1 scan code with the release bit cleared, if
/// the table knows it.
pub open spec fn key_table(code: u8) -> Option<u32> {
    match code {
        0x01u8 => Some(0x1Bu32),
        0x02u8 => Some(0x31u32),
        0x03u8 => Some(0x32u32),
        0x04u8 => Some(0x33u32),
        0x05u8 => Some(0x34u32),
        0x06u8 => Some(0x35u32),
        0x07u8 => Some(0x36u32),
        0x08u8 => Some(0x37u32),
        0x09u8 => Some(0x38u32),
        0x0Au8 => Some(0x39u32),
        0x0Bu8 => Some(0x30u32),
        0x0Cu8 => Some(0x2Du32),
        0x0Du8 => Some(0x3Du32),
        0x0Eu8 => Some(0x08u32),
        0x0Fu8 => Some(0x09u32),
        0x10u8 => Some(0x51u32),
        0x11u8 => Some(0x57u32),
        0x12u8 => Some(0x45u32),
        0x13u8 => Some(0x52u32),
        0x14u8 => Some(0x54u32),
        0x15u8 => Some(0x59u32),
        0x16u8 => Some(0x55u32),
        0x17u8 => Some(0x49u32),
        0x18u8 => Some(0x4Fu32),
        0x19u8 => Some(0x50u32),
        0x1Au8 => Some(0x5Bu32),
        0x1Bu8 => Some(0x5Du32),
        0x1Cu8 => Some(0x0Du32),
        0x1Eu8 => Some(0x41u32),
        0x1Fu8 => Some(0x53u32),
        0x20u8 => Some(0x44u32),
        0x21u8 => Some(0x46u32),
        0x22u8 => Some(0x47u32),
        0x23u8 => Some(0x48u32),
        0x24u8 => Some(0x4Au32),
        0x25u8 => Some(0x4Bu32),
        0x26u8 => Some(0x4Cu32),
        0x27u8 => Some(0x3Bu32),
        0x28u8 => Some(0x27u32),
        0x29u8 => Some(0x60u32),
        0x2Au8 => Some(0x10u32),
        0x2Cu8 => Some(0x5Au32),
        0x2Du8 => Some(0x58u32),
        0x2Eu8 => Some(0x43u32),
        0x2Fu8 => Some(0x56u32),
        0x30u8 => Some(0x42u32),
        0x31u8 => Some(0x4Eu32),
        0x32u8 => Some(0x4Du32),
        0x33u8 => Some(0x2Cu32),
        0x34u8 => Some(0x2Eu32),
        0x35u8 => Some(0x2Fu32),
        0x36u8 => Some(0x10u32),
        0x38u8 => Some(0x11u32),
        0x39u8 => Some(0x20u32),
        0x3Au8 => Some(0x14u32),
        0x3Bu8 => Some(0x70u32),
        0x3Cu8 => Some(0x71u32),
        0x3Du8 => Some(0x72u32),
        0x3Eu8 => Some(0x73u32),
        0x3Fu8 => Some(0x74u32),
        0x40u8 => Some(0x75u32),
        0x41u8 => Some(0x76u32),
        0x42u8 => Some(0x77u32),
        0x43u8 => Some(0x78u32),
        0x44u8 => Some(0x79u32),
        0x45u8 => Some(0x90u32),
        0x46u8 => Some(0x91u32),
        0x47u8 => Some(0x24u32),
        0x48u8 => Some(0x26u32),
        0x49u8 => Some(0x21u32),
        0x4Au8 => Some(0x2Du32),
        0x4Bu8 => Some(0x25u32),
        0x4Cu8 => Some(0x0Cu32),
        0x4Du8 => Some(0x27u32),
        0x4Eu8 => Some(0x2Bu32),
        0x4Fu8 => Some(0x23u32),
        0x50u8 => Some(0x28u32),
        0x51u8 => Some(0x22u32),
        0x52u8 => Some(0x2Eu32),
        0x53u8 => Some(0x2Eu32),
        _ => None,
    }
}

/// The key code reported for `scan_code`: the table entry for the scan code
/// without its release bit, or else the scan code itself.
pub open spec fn key_code_of(scan_code: u8) -> u32 {
    match key_table(scan_code & 0x7Fu8) {
        Some(k) => k,
        None => scan_code as u32,
    }
}

/// A decoded keyboard event.
#[derive(Clone, Copy, PartialEq, Eq, Structural, Debug)]
pub struct KeyEvent {
    pub key_code: u32,
    pub scan_code: u32,
    pub pressed: bool,
}

/// Key code of a scan code without its release bit, from the table.
fn table_lookup(code: u8) -> (r: Option<u32>)
    ensures
        r == key_table(code),
{
    let k: u32 = match code {
        0x01 => 0x1B,
        0x02 => 0x31,
        0x03 => 0x32,
        0x04 => 0x33,
        0x05 => 0x34,
        0x06 => 0x35,
        0x07 => 0x36,
        0x08 => 0x37,
        0x09 => 0x38,
        0x0A => 0x39,
        0x0B => 0x30,
        0x0C => 0x2D,
        0x0D => 0x3D,
        0x0E => 0x08,
        0x0F => 0x09,
        0x10 => 0x51,
        0x11 => 0x57,
        0x12 => 0x45,
        0x13 => 0x52,
        0x14 => 0x54,
        0x15 => 0x59,
        0x16 => 0x55,
        0x17 => 0x49,
        0x18 => 0x4F,
        0x19 => 0x50,
        0x1A => 0x5B,
        0x1B => 0x5D,
        0x1C => 0x0D,
        0x1E => 0x41,
        0x1F => 0x53,
        0x20 => 0x44,
        0x21 => 0x46,
        0x22 => 0x47,
        0x23 => 0x48,
        0x24 => 0x4A,
        0x25 => 0x4B,
        0x26 => 0x4C,
        0x27 => 0x3B,
        0x28 => 0x27,
        0x29 => 0x60,
        0x2A => 0x10,
        0x2C => 0x5A,
        0x2D => 0x58,
        0x2E => 0x43,
        0x2F => 0x56,
        0x30 => 0x42,
        0x31 => 0x4E,
        0x32 => 0x4D,
        0x33 => 0x2C,
        0x34 => 0x2E,
        0x35 => 0x2F,
        0x36 => 0x10,
        0x38 => 0x11,
        0x39 => 0x20,
        0x3A => 0x14,
        0x3B => 0x70,
        0x3C => 0x71,
        0x3D => 0x72,
        0x3E => 0x73,
        0x3F => 0x74,
        0x40 => 0x75,
        0x41 => 0x76,
        0x42 => 0x77,
        0x43 => 0x78,
        0x44 => 0x79,
        0x45 => 0x90,
        0x46 => 0x91,
        0x47 => 0x24,
        0x48 => 0x26,
        0x49 => 0x21,
        0x4A => 0x2D,
        0x4B => 0x25,
        0x4C => 0x0C,
        0x4D => 0x27,
        0x4E => 0x2B,
        0x4F => 0x23,
        0x50 => 0x28,
        0x51 => 0x22,
        0x52 => 0x2E,
        0x53 => 0x2E,
        _ => {
            return None;
        },
    };
    Some(k)
}

/// Decodes a PS/2 set-1 scan code: the key code, the raw scan code, and
/// whether the key went down (bit 7 clear) or up.
pub fn decode_scan_code(scan_code: u8) -> (e: KeyEvent)
    ensures
        e.key_code == key_code_of(scan_code),
        e.scan_code == scan_code as u32,
        e.pressed == (scan_code & 0x80u8 == 0),
{
    let key_code = match table_lookup(scan_code & 0x7F) {
        Some(k) => k,
        None => scan_code as u32,
    };
    KeyEvent { key_code, scan_code: scan_code as u32, pressed: (scan_code & 0x80) == 0 }
}

/// Whether CPUID leaf 1 reports a local APIC (bit 9 of ECX).
pub fn apic_present(cpuid_ecx: u32) -> (r: bool)
    ensures
        r == (cpuid_ecx & 0x200u32 != 0),
{
    (cpuid_ecx & 0x200u32) != 0
}

/// Where the end of an interrupt must be signalled.
#[derive(Clone, Copy, PartialEq, Eq, Structural, Debug)]
pub enum EoiTarget {
    /// The local APIC.
    Apic,
    /// The master PIC only.
    MasterPic,
    /// The slave PIC, then the master PIC.
    SlaveAndMasterPic,
}

/// End-of-interrupt routing for `irq`.
pub fn send_eoi(irq: u8, has_apic: bool) -> (t: EoiTarget)
    ensures
        t == if has_apic {
            EoiTarget::Apic
        } else if irq >= 8 {
            EoiTarget::SlaveAndMasterPic
        } else {
            EoiTarget::MasterPic
        },
{
    if has_apic {
        EoiTarget::Apic
    } else if irq >= 8 {
        EoiTarget::SlaveAndMasterPic
    } else {
        EoiTarget::MasterPic
    }
}

/// The PIC data port that holds the mask of `irq`.
pub fn pic_mask_port(irq: u8) -> (p: u16)
    ensures
        p == if irq >= 8 {
            0xA1u16
        } else {
            0x21u16
        },
{
    if irq >= 8 {
        0xA1
    } else {
        0x21
    }
}

/// A PIC mask with `irq` masked.
pub fn mask_interrupt(mask: u8, irq: u8) -> (m: u8)
    ensures
        m == mask | (1u8 << (irq % 8)),
{
    mask | (1u8 << (irq % 8))
}

/// A PIC mask with `irq` unmasked.
pub fn unmask_interrupt(mask: u8, irq: u8) -> (m: u8)
    ensures
        m == mask & !(1u8 << (irq % 8)),
{
    mask & !(1u8 << (irq % 8))
}

/// Statistics of one interrupt line.
#[derive(Clone, Copy, Debug)]
pub struct InterruptStats {
    pub count: u64,
    pub last_time: u64,
    pub max_latency: u64,
}

/// The statistics of a line after an interrupt at `now`.
pub open spec fn stats_after(s: Option<InterruptStats>, now: u64) -> InterruptStats {
    let prev = match s {
        Some(p) => p,
        None => InterruptStats { count: 0, last_time: 0, max_latency: 0 },
    };
    InterruptStats {
        count: (prev.count + 1) as u64,
        last_time: now,
        max_latency: if prev.last_time > 0 && now - prev.last_time > prev.max_latency {
            (now - prev.last_time) as u64
        } else {
            prev.max_latency
        },
    }
}

/// Registered handlers and statistics of the interrupt lines.
pub struct InterruptTable {
    handlers: BTreeMap<u8, Vec<u64>>,
    stats: BTreeMap<u8, InterruptStats>,
}

impl InterruptTable {
    /// Handlers of each line, in registration order.
    pub closed spec fn handlers(&self) -> Map<u8, Seq<u64>> {
        self.handlers@.map_values(|v: Vec<u64>| v@)
    }

    /// Statistics of each line that has fired.
    pub closed spec fn stats(&self) -> Map<u8, InterruptStats> {
        self.stats@
    }

    /// The statistics of line `irq`, if it has fired.
    pub open spec fn stats_of(&self, irq: u8) -> Option<InterruptStats> {
        if self.stats().contains_key(irq) {
            Some(self.stats()[irq])
        } else {
            None
        }
    }

    pub fn new() -> (t: Self)
        ensures
            t.handlers() == Map::<u8, Seq<u64>>::empty(),
            t.stats() == Map::<u8, InterruptStats>::empty(),
    {
        let t = InterruptTable { handlers: BTreeMap::new(), stats: BTreeMap::new() };
        proof {
            assert(t.handlers() =~= Map::<u8, Seq<u64>>::empty());
        }
        t
    }

    /// Adds `handler` to the handlers of `irq`.
    pub fn register_handler(&mut self, irq: u8, handler: u64)
        ensures
            final(self).handlers() == old(self).handlers().insert(
                irq,
                if old(self).handlers().contains_key(irq) {
                    old(self).handlers()[irq].push(handler)
                } else {
                    seq![handler]
                },
            ),
            final(self).stats() == old(self).stats(),
    {
        let mut list = match self.handlers.remove(&irq) {
            Some(v) => v,
            None => Vec::new(),
        };
        list.push(handler);
        self.handlers.insert(irq, list);
        proof {
            assert(self.handlers() =~= old(self).handlers().insert(
                irq,
                if old(self).handlers().contains_key(irq) {
                    old(self).handlers()[irq].push(handler)
                } else {
                    seq![handler]
                },
            ));
        }
    }

    /// Records an interrupt on `irq` at `now`: one more count, and the
    /// largest gap between two interrupts seen so far.
    pub fn update_stats(&mut self, irq: u8, now: u64)
        requires
            old(self).stats().contains_key(irq) ==> {
                let s = old(self).stats()[irq];
                &&& s.count < u64::MAX
                &&& s.last_time > 0 ==> now >= s.last_time
            },
        ensures
            final(self).stats() == old(self).stats().insert(
                irq,
                stats_after(
                    if old(self).stats().contains_key(irq) {
                        Some(old(self).stats()[irq])
                    } else {
                        None
                    },
                    now,
                ),
            ),
            final(self).handlers() == old(self).handlers(),
    {
        let prev = match self.stats.get(&irq) {
            Some(s) => *s,
            None => InterruptStats { count: 0, last_time: 0, max_latency: 0 },
        };
        let mut entry = prev;
        entry.count = entry.count + 1;
        if entry.last_time > 0 {
            let latency = now - entry.last_time;
            if latency > entry.max_latency {
                entry.max_latency = latency;
            }
        }
        entry.last_time = now;
        self.stats.insert(irq, entry);
    }

    /// Whether an interrupt on `irq` at `now` can be counted: the count has
    /// room, and `now` is not before the line's last interrupt.
    pub fn can_count(&self, irq: u8, now: u64) -> (r: bool)
        ensures
            r == (self.stats().contains_key(irq) ==> {
                let s = self.stats()[irq];
                &&& s.count < u64::MAX
                &&& s.last_time > 0 ==> now >= s.last_time
            }),
    {
        match self.stats.get(&irq) {
            Some(s) => s.count < u64::MAX && (s.last_time == 0 || now >= s.last_time),
            None => true,
        }
    }

    /// The handlers to call for an interrupt on `irq` at `now`, after which
    /// the interrupt is counted.
    pub fn call_handlers(&mut self, irq: u8, now: u64) -> (r: Vec<u64>)
        requires
            old(self).stats().contains_key(irq) ==> {
                let s = old(self).stats()[irq];
                &&& s.count < u64::MAX
                &&& s.last_time > 0 ==> now >= s.last_time
            },
        ensures
            r@ == if old(self).handlers().contains_key(irq) {
                old(self).handlers()[irq]
            } else {
                Seq::<u64>::empty()
            },
            final(self).stats() == old(self).stats().insert(
                irq,
                stats_after(
                    if old(self).stats().contains_key(irq) {
                        Some(old(self).stats()[irq])
                    } else {
                        None
                    },
                    now,
                ),
            ),
            final(self).handlers() == old(self).handlers(),
    {
        let mut r: Vec<u64> = Vec::new();
        match self.handlers.get(&irq) {
            Some(list) => {
                let mut i: usize = 0;
                while i < list.len()
                    invariant
                        i <= list.len(),
                        r@ == list@.subrange(0, i as int),
                    decreases list.len() - i,
                {
                    r.push(list[i]);
                    i = i + 1;
                }
                proof {
                    assert(r@ =~= list@);
                }
            },
            None => {},
        }
        self.update_stats(irq, now);
        r
    }

    /// The count and largest gap of `irq`, if it has fired.
    pub fn get_stats(&self, irq: u8) -> (r: Option<(u64, u64)>)
        ensures
            r == if self.stats().contains_key(irq) {
                Some((self.stats()[irq].count, self.stats()[irq].max_latency))
            } else {
                None::<(u64, u64)>
            },
    {
        match self.stats.get(&irq) {
            Some(s) => Some((s.count, s.max_latency)),
            None => None,
        }
    }

    /// The count and largest gap of every line that has fired.
    pub fn get_all_stats(&self) -> (r: BTreeMap<u8, (u64, u64)>)
        ensures
            r@ == self.stats().map_values(|s: InterruptStats| (s.count, s.max_latency)),
    {
        let mut r: BTreeMap<u8, (u64, u64)> = BTreeMap::new();
        let mut irq: u16 = 0;
        while irq < 256
            invariant
                irq <= 256,
                forall|k: u8| #[trigger]
                    r@.contains_key(k) <==> (k < irq && self.stats@.contains_key(k)),
                forall|k: u8|
                    #[trigger] r@.contains_key(k) ==> r@[k] == (
                        self.stats@[k].count,
                        self.stats@[k].max_latency,
                    ),
            decreases 256 - irq,
        {
            let k = irq as u8;
            match self.stats.get(&k) {
                Some(s) => {
                    r.insert(k, (s.count, s.max_latency));
                },
                None => {},
            }
            irq = irq + 1;
        }
        proof {
            assert(r@ =~= self.stats().map_values(
                |s: InterruptStats| (s.count, s.max_latency),
            ));
        }
        r
    }
}

/// A key's press and release report the same key code.
pub proof fn law_press_and_release_share_key_code(scan_code: u8)
    requires
        scan_code < 0x80,
    ensures
        key_table(scan_code) is Some ==> key_code_of(scan_code) == key_code_of(scan_code | 0x80u8),
        scan_code & 0x80u8 == 0,
        (scan_code | 0x80u8) & 0x80u8 != 0,
{
    assert((scan_code | 0x80u8) & 0x7Fu8 == scan_code & 0x7Fu8) by (bit_vector);
    assert(scan_code & 0x7Fu8 == scan_code) by (bit_vector)
        requires
            scan_code < 0x80,
    ;
    assert(scan_code & 0x80u8 == 0) by (bit_vector)
        requires
            scan_code < 0x80,
    ;
    assert((scan_code | 0x80u8) & 0x80u8 != 0) by (bit_vector);
}

/// Masking and then unmasking a line restores its bit and leaves the others.
pub proof fn law_unmask_undoes_mask(mask: u8, irq: u8)
    requires
        mask & (1u8 << (irq % 8)) == 0,
    ensures
        (mask | (1u8 << (irq % 8))) & !(1u8 << (irq % 8)) == mask,
{
    let b = irq % 8;
    assert((mask | (1u8 << b)) & !(1u8 << b) == mask) by (bit_vector)
        requires
            mask & (1u8 << b) == 0,
            b < 8,
    ;
}

/// The statistics of a line after interrupts at `times`, oldest first,
/// starting with none: each handled interrupt updates them as
/// [`InterruptTable::call_handlers`] and [`InterruptTable::update_stats`]
/// do.
pub open spec fn stats_over(times: Seq<u64>) -> Option<InterruptStats>
    decreases times.len(),
{
    if times.len() == 0 {
        None
    } else {
        Some(stats_after(stats_over(times.drop_last()), times.last()))
    }
}

/// A line that has been raised and handled `n` times has no statistics
/// when `n` is 0, and a count of `n` otherwise.
pub proof fn law_interrupt_count(times: Seq<u64>)
    requires
        times.len() < u64::MAX,
    ensures
        times.len() == 0 ==> stats_over(times) is None,
        times.len() > 0 ==> stats_over(times) is Some && stats_over(times)->0.count == times.len(),
    decreases times.len(),
{
    if times.len() > 0 {
        law_interrupt_count(times.drop_last());
    }
}

/// Over a run of interrupts on one line, the statistics follow
/// [`stats_over`]: a new table has none, and when the statistics of `irq`
/// are those of the interrupts at `times`, handling one more at `now` (as
/// [`InterruptTable::call_handlers`] and [`InterruptTable::update_stats`]
/// do) makes them those of `times` followed by `now`.
pub proof fn law_statistics_follow_the_run(
    t0: InterruptTable,
    t1: InterruptTable,
    irq: u8,
    times: Seq<u64>,
    now: u64,
)
    requires
        t0.stats_of(irq) == stats_over(times),
        t1.stats() == t0.stats().insert(irq, stats_after(t0.stats_of(irq), now)),
    ensures
        t1.stats_of(irq) == stats_over(times.push(now)),
{
    assert(times.push(now).drop_last() =~= times);
}

} // verus!
