use aios_kernel::agent_mapping::AgentMemoryMapping;
use aios_kernel::agent_pool::{AgentMemoryPool, AGENT_MEMORY_START};
use aios_kernel::events::{publish_event, subscribe, EventType, KernelEvent, KernelEventSystem};
use aios_kernel::interrupts::InterruptTable;
use aios_kernel::physical::BitmapFrameAllocator;
use aios_kernel::serialize::{deserialize_string, deserialize_u64, serialize_string, serialize_u64};
use aios_kernel::smp::SmpManager;
use aios_kernel::time::{TimeManager, TimeSource};
use aios_kernel::virtual_mem::{
    PageTableManager, PagingState, PF_CAUSED_BY_WRITE, PF_PROTECTION_VIOLATION, PF_USER_MODE,
};

const READY: PagingState = PagingState { initialized: true, has_table: true, has_frame_allocator: true };

#[test]
fn interrupt_count_is_the_number_handled() {
    let mut t = InterruptTable::new();
    assert_eq!(t.get_stats(33), None);
    for now in 1..=5u64 {
        t.call_handlers(33, now * 10);
    }
    assert_eq!(t.get_stats(33).unwrap().0, 5);
}

#[test]
fn unregistered_region_has_no_owner_and_others_keep_theirs() {
    let mut m = AgentMemoryMapping::new();
    m.register_agent_region(1, 0x10000, 0x12000);
    m.register_agent_region(2, 0x20000, 0x21000);
    m.unregister_agent_region(1);
    for addr in [0x10000u64, 0x10123, 0x11000, 0x11fff] {
        assert_eq!(m.get_agent_for_address(addr), None);
    }
    assert_eq!(m.get_agent_for_address(0x20000), Some(2));
    assert_eq!(m.get_agent_for_address(0x20abc), Some(2));
}

#[test]
fn pool_allocations_are_aligned_and_disjoint() {
    let mut pool = AgentMemoryPool::new();
    let mut frames = BitmapFrameAllocator::new(64, 0x20_0000, 1);
    let (a, _) = pool.allocate(1, 5000, &mut frames, READY, &mut None, 0);
    let (b, _) = pool.allocate(2, 10, &mut frames, READY, &mut None, 0);
    let (a, b) = (a.unwrap(), b.unwrap());
    assert_eq!(a % 4096, 0);
    assert_eq!(b % 4096, 0);
    assert!(a >= AGENT_MEMORY_START);
    assert!(a + 2 * 4096 <= b);
}

#[test]
fn fault_counters_add_up() {
    let mut pt = PageTableManager::new();
    let mut m = AgentMemoryMapping::new();
    m.register_agent_region(3, 0x7000, 0x8000);
    let write = PF_PROTECTION_VIOLATION | PF_USER_MODE | PF_CAUSED_BY_WRITE;
    let _ = pt.begin_page_fault(0x7000, 0, Some(3), &m, &mut None, 0);
    let _ = pt.begin_page_fault(0x7000, write, Some(3), &m, &mut None, 0);
    let _ = pt.begin_page_fault(0x9000, PF_PROTECTION_VIOLATION, None, &m, &mut None, 0);
    let (total, cow, prot, demand, _) = pt.get_page_fault_stats();
    assert_eq!(total, demand + prot);
    assert!(cow <= prot);
    assert_eq!((total, cow, prot, demand), (3, 1, 2, 1));
}

#[test]
fn bytes_to_u64_and_back() {
    let bytes = [1u8, 2, 3, 4, 5, 6, 7, 0xFF, 9];
    let v = deserialize_u64(&bytes).unwrap();
    let mut out = [0u8; 8];
    assert_eq!(serialize_u64(v, &mut out), 8);
    assert_eq!(&out[..], &bytes[..8]);
}

#[test]
fn string_comes_back_whole() {
    let mut buf = [0xAAu8; 32];
    let n = serialize_string("héllo", &mut buf).unwrap();
    assert_eq!(n, 4 + "héllo".len());
    let (s, used) = deserialize_string(&buf).unwrap();
    assert_eq!(s, "héllo");
    assert_eq!(used, n);
}

#[test]
fn balancing_and_stopping_keep_agents() {
    let mut m = SmpManager::init(3, 0, &vec![10, 11, 12], &mut None, 0);
    m.start_cpu(1, &mut None, 0).unwrap();
    assert_eq!(m.load_balance(), None);
    let total: usize = (0..3).map(|c| m.get_per_cpu_data(c).unwrap().runqueue.len()).sum();
    assert_eq!(total, 0);
    assert!(m.online_cpu_count() >= 1 && m.online_cpu_count() <= m.cpu_count());
    m.stop_cpu(1, &mut None, 0).unwrap();
    assert_eq!(m.online_cpu_count(), 1);
}

#[test]
fn cancelled_timer_stays_cancelled() {
    let mut t = TimeManager::init(TimeSource::Tsc, 1_000_000_000, 0);
    let a = t.create_timer(7, 10, true, 0);
    t.cancel_timer(a);
    let b = t.create_timer(8, 10, true, 0);
    assert_ne!(a, b);
    for now in [10u64, 20, 30] {
        assert!(t.due_timers(now).iter().all(|&(id, _)| id != a));
        t.process_timers(now, &vec![(b, true)]);
    }
}

#[test]
fn events_reach_the_subscriptions_that_want_them() {
    let mut sys = Some(KernelEventSystem::new());
    subscribe(&mut sys, vec![EventType::Security], None, 5);
    subscribe(&mut sys, vec![EventType::Security, EventType::Device], Some(3), 6);
    subscribe(&mut sys, vec![EventType::Device], None, 7);
    let ev = |t: EventType, a: Option<u64>| KernelEvent { event_type: t, timestamp: 1, agent_id: a, data: vec![] };
    assert_eq!(publish_event(&mut sys, ev(EventType::Security, Some(3))), vec![5, 6]);
    assert_eq!(publish_event(&mut sys, ev(EventType::Security, Some(4))), vec![5]);
    assert_eq!(publish_event(&mut sys, ev(EventType::Device, None)), vec![7]);
    assert_eq!(publish_event(&mut sys, ev(EventType::Network, None)), Vec::<u64>::new());
    let bus = &sys.as_ref().unwrap().bus;
    assert_eq!(bus.recipients(bus.queued_event(0).unwrap()), vec![5, 6]);
    assert!(publish_event(&mut None, ev(EventType::Security, None)).is_empty());
}
