use aios_kernel::agent_mapping::AgentMemoryMapping;
use aios_kernel::agent_pool::{self, AgentMemoryPool, AGENT_MEMORY_START};
use aios_kernel::allocator::BumpAllocator;
use aios_kernel::events::{EventType, KernelEventSystem};
use aios_kernel::physical::BitmapFrameAllocator;
use aios_kernel::virtual_mem::{
    create_agent_page_table, switch_to_agent_page_table, PageTableError,
    containing_page, map_page, unmap_page, FaultAction, FaultEvent, FaultStep, MapError, MapRequest,
    PageFaultError, PageTableManager, PagingState, UnmapError, PF_CAUSED_BY_WRITE, PF_PROTECTION_VIOLATION,
    PF_USER_MODE,
};

const READY: PagingState = PagingState { initialized: true, has_table: true, has_frame_allocator: true };

#[test]
fn frames_come_after_the_reserved_ones() {
    let mut a = BitmapFrameAllocator::new(64, 0x10_0000, 2);
    assert_eq!(a.total_frames(), 64);
    assert_eq!(a.free_frames(), 62);
    assert_eq!(a.allocate_frame(), Some(0x10_0000 + 2 * 4096));
    assert_eq!(a.allocate_frame(), Some(0x10_0000 + 3 * 4096));
    assert_eq!(a.free_frames(), 60);
}

#[test]
fn freed_frame_is_reused_first() {
    let mut a = BitmapFrameAllocator::new(64, 0, 1);
    let f1 = a.allocate_frame().unwrap();
    let _f2 = a.allocate_frame().unwrap();
    a.deallocate_frame(f1);
    assert_eq!(a.free_frames(), 62);
    assert_eq!(a.allocate_frame(), Some(f1));
}

#[test]
fn allocator_runs_out() {
    let mut a = BitmapFrameAllocator::new(64, 0, 1);
    for _ in 0..63 {
        assert!(a.allocate_frame().is_some());
    }
    assert_eq!(a.allocate_frame(), None);
    assert_eq!(a.free_frames(), 0);
}

#[test]
fn frames_outside_are_ignored_on_free() {
    let mut a = BitmapFrameAllocator::new(64, 0x1000, 1);
    a.deallocate_frame(0);
    a.deallocate_frame(0x1000 + 100 * 4096);
    assert_eq!(a.free_frames(), 63);
}

#[test]
fn agent_regions_own_their_pages() {
    let mut m = AgentMemoryMapping::new();
    m.register_agent_region(5, 0x4000, 0x6000);
    assert_eq!(m.get_agent_for_address(0x4000), Some(5));
    assert_eq!(m.get_agent_for_address(0x5123), Some(5));
    assert_eq!(m.get_agent_for_address(0x6000), None);
    m.unregister_agent_region(5);
    assert_eq!(m.get_agent_for_address(0x4000), None);
}

#[test]
fn page_of_address() {
    assert_eq!(containing_page(0x1234_5678), 0x1234_5000);
    assert_eq!(containing_page(0x1000), 0x1000);
}

#[test]
fn mapping_needs_capability_and_paging() {
    assert_eq!(map_page(0x1234, 0x5678, 3, 1, false, READY, &mut None, 0), Err(MapError::PermissionDenied));
    let uninit = PagingState { initialized: false, has_table: true, has_frame_allocator: true };
    assert_eq!(map_page(0x1234, 0x5678, 3, 1, true, uninit, &mut None, 0), Err(MapError::NotInitialized));
    let no_table = PagingState { initialized: true, has_table: false, has_frame_allocator: true };
    assert_eq!(map_page(0x1234, 0x5678, 3, 1, true, no_table, &mut None, 0), Err(MapError::NoPageTable));
    let no_alloc = PagingState { initialized: true, has_table: true, has_frame_allocator: false };
    assert_eq!(map_page(0x1234, 0x5678, 3, 1, true, no_alloc, &mut None, 0), Err(MapError::NoFrameAllocator));
    assert_eq!(
        map_page(0x1234, 0x5678, 3, 1, true, READY, &mut None, 0),
        Ok(MapRequest { page: 0x1000, frame: 0x5000, flags: 3 })
    );
    assert_eq!(unmap_page(0x2345, READY), Ok(0x2000));
    assert_eq!(unmap_page(0x2345, uninit), Err(UnmapError::NotInitialized));
    assert_eq!(unmap_page(0x2345, no_table), Err(UnmapError::NoPageTable));
}

#[test]
fn mapping_decisions_are_announced() {
    let mut ev = Some(KernelEventSystem::new());
    assert_eq!(map_page(0x1234, 0x5678, 3, 9, false, READY, &mut ev, 5), Err(MapError::PermissionDenied));
    let e = ev.as_ref().unwrap().bus.queued_event(0).unwrap();
    assert_eq!((e.event_type, e.timestamp, e.agent_id), (EventType::Security, 5, Some(9)));
    assert!(map_page(0x1234, 0x5678, 3, 9, true, READY, &mut ev, 6).is_ok());
    let e = ev.as_ref().unwrap().bus.queued_event(1).unwrap();
    assert_eq!((e.event_type, e.timestamp, e.agent_id), (EventType::Memory, 6, Some(9)));
    let e = ev.as_ref().unwrap().bus.queued_event(2).unwrap();
    assert_eq!((e.event_type, e.timestamp, e.agent_id), (EventType::VirtualMemory, 6, Some(9)));
    let uninit = PagingState { initialized: false, has_table: true, has_frame_allocator: true };
    assert!(map_page(0x1234, 0x5678, 3, 9, true, uninit, &mut ev, 7).is_err());
    assert_eq!(ev.as_ref().unwrap().bus.queue_len(), 3);
    let mut pool = AgentMemoryPool::new();
    let mut frames = BitmapFrameAllocator::new(64, 0x20_0000, 1);
    pool.allocate(4, 8192, &mut frames, READY, &mut ev, 8);
    assert_eq!(ev.as_ref().unwrap().bus.queue_len(), 7);
}

#[test]
fn demand_paging_allocates_maps_and_zeroes() {
    let mut pt = PageTableManager::new();
    let m = AgentMemoryMapping::new();
    let (step, action) = pt.begin_page_fault(0x7000, 0, Some(3), &m, &mut None, 0);
    assert!(matches!(action, FaultAction::AllocateFrame));
    let (step, action) = pt.step(step, FaultEvent::FrameAllocated(Some(0x9000)));
    assert!(matches!(action, FaultAction::MapPage { address: 0x7000, frame: 0x9000, flags: 7, agent: 3 }));
    let (step, action) = pt.step(step, FaultEvent::Mapped(true));
    assert!(matches!(action, FaultAction::ZeroPage { address: 0x7000 }));
    let (step, action) = pt.step(step, FaultEvent::Completed);
    assert_eq!(step, FaultStep::Done);
    assert!(matches!(action, FaultAction::Finish { result: Ok(()) }));
    let (total, cow, prot, demand, by_agent) = pt.get_page_fault_stats();
    assert_eq!((total, cow, prot, demand), (1, 0, 0, 1));
    assert_eq!(by_agent.get(&3), Some(&1));
}

#[test]
fn demand_paging_without_memory_fails() {
    let mut pt = PageTableManager::new();
    let m = AgentMemoryMapping::new();
    let (step, _) = pt.begin_page_fault(0x7000, 0, None, &m, &mut None, 0);
    let (step, action) = pt.step(step, FaultEvent::FrameAllocated(None));
    assert_eq!(step, FaultStep::Done);
    assert!(matches!(action, FaultAction::Finish { result: Err(PageFaultError::OutOfMemory) }));
}

#[test]
fn kernel_protection_fault_is_refused() {
    let mut pt = PageTableManager::new();
    let m = AgentMemoryMapping::new();
    let mut ev = Some(KernelEventSystem::new());
    let (_, action) = pt.begin_page_fault(0x7000, PF_PROTECTION_VIOLATION, None, &m, &mut ev, 4);
    let e = ev.as_ref().unwrap().bus.queued_event(0).unwrap();
    assert_eq!((e.event_type, e.timestamp, e.agent_id), (EventType::Security, 4, None));
    assert!(matches!(action, FaultAction::Finish { result: Err(PageFaultError::KernelProtectionViolation) }));
    let (_, _, prot, demand, _) = pt.get_page_fault_stats();
    assert_eq!((prot, demand), (1, 0));
}

#[test]
fn foreign_page_is_a_read_violation() {
    let mut pt = PageTableManager::new();
    let mut m = AgentMemoryMapping::new();
    m.register_agent_region(9, 0x7000, 0x8000);
    let code = PF_PROTECTION_VIOLATION | PF_USER_MODE | PF_CAUSED_BY_WRITE;
    let (_, action) = pt.begin_page_fault(0x7000, code, Some(3), &m, &mut None, 0);
    assert!(matches!(action, FaultAction::Finish { result: Err(PageFaultError::ReadViolation) }));
}

#[test]
fn copy_on_write_copies_and_frees_the_last_reference() {
    let mut pt = PageTableManager::new();
    let mut m = AgentMemoryMapping::new();
    m.register_agent_region(3, 0x7000, 0x8000);
    pt.mark_cow_page(0xA000, 1);
    let code = PF_PROTECTION_VIOLATION | PF_USER_MODE | PF_CAUSED_BY_WRITE;
    let (step, action) = pt.begin_page_fault(0x7000, code, Some(3), &m, &mut None, 0);
    assert!(matches!(action, FaultAction::Unmap { address: 0x7000 }));
    let (step, action) = pt.step(step, FaultEvent::Unmapped(Some(0xA000)));
    assert!(matches!(action, FaultAction::AllocateFrame));
    let (step, action) = pt.step(step, FaultEvent::FrameAllocated(Some(0xB000)));
    assert!(matches!(action, FaultAction::CopyFrame { from: 0xA000, to: 0xB000 }));
    let (step, action) = pt.step(step, FaultEvent::Completed);
    assert!(matches!(action, FaultAction::MapPage { address: 0x7000, frame: 0xB000, .. }));
    let (step, action) = pt.step(step, FaultEvent::Mapped(true));
    assert!(matches!(action, FaultAction::FreeFrame { frame: 0xA000 }));
    let (step, action) = pt.step(step, FaultEvent::Completed);
    assert_eq!(step, FaultStep::Done);
    assert!(matches!(action, FaultAction::Finish { result: Ok(()) }));
    assert_eq!(pt.get_page_fault_stats().1, 1);
}

#[test]
fn copy_on_write_keeps_a_shared_frame() {
    let mut pt = PageTableManager::new();
    let mut m = AgentMemoryMapping::new();
    m.register_agent_region(3, 0x7000, 0x8000);
    pt.mark_cow_page(0xA000, 2);
    let code = PF_PROTECTION_VIOLATION | PF_USER_MODE | PF_CAUSED_BY_WRITE;
    let (step, _) = pt.begin_page_fault(0x7000, code, Some(3), &m, &mut None, 0);
    let (step, action) = pt.step(step, FaultEvent::Unmapped(Some(0xA000)));
    assert!(matches!(action, FaultAction::AllocateFrame));
    let (step, _) = pt.step(step, FaultEvent::FrameAllocated(Some(0xB000)));
    let (step, _) = pt.step(step, FaultEvent::Completed);
    let (step, action) = pt.step(step, FaultEvent::Mapped(true));
    assert_eq!(step, FaultStep::Done);
    assert!(matches!(action, FaultAction::Finish { result: Ok(()) }));
}

#[test]
fn pool_allocation_rounds_up_to_pages() {
    let mut pool = AgentMemoryPool::new();
    let mut frames = BitmapFrameAllocator::new(64, 0x20_0000, 1);
    let (addr, maps) = pool.allocate(4, 5000, &mut frames, READY, &mut None, 0);
    assert_eq!(addr, Some(AGENT_MEMORY_START));
    assert_eq!(maps.len(), 2);
    assert_eq!(maps[0], MapRequest { page: AGENT_MEMORY_START, frame: 0x20_0000 + 4096, flags: 7 });
    assert_eq!(maps[1].page, AGENT_MEMORY_START + 4096);
    assert_eq!(frames.free_frames(), 61);
    let (addr2, _) = pool.allocate(4, 1, &mut frames, READY, &mut None, 0);
    assert_eq!(addr2, Some(AGENT_MEMORY_START + 2 * 4096));
}

#[test]
fn pool_deallocation_frees_frames_and_unmaps() {
    let mut pool = AgentMemoryPool::new();
    let mut frames = BitmapFrameAllocator::new(64, 0x20_0000, 1);
    let (addr, _) = pool.allocate(4, 8192, &mut frames, READY, &mut None, 0);
    let pages = pool.deallocate(addr.unwrap(), 4, &mut frames, READY);
    assert_eq!(pages, vec![AGENT_MEMORY_START, AGENT_MEMORY_START + 4096]);
    assert_eq!(frames.free_frames(), 63);
    assert!(pool.deallocate(addr.unwrap(), 4, &mut frames, READY).is_empty());
}

#[test]
fn pool_allocation_refused_without_paging() {
    let mut pool = AgentMemoryPool::new();
    let mut frames = BitmapFrameAllocator::new(64, 0x20_0000, 1);
    let no_table = PagingState { initialized: true, has_table: false, has_frame_allocator: true };
    let (addr, maps) = pool.allocate(4, 100, &mut frames, no_table, &mut None, 0);
    assert_eq!(addr, None);
    assert!(maps.is_empty());
    assert_eq!(frames.free_frames(), 63);
    assert_eq!(pool.next_address(), AGENT_MEMORY_START);
}

#[test]
fn pool_runs_out_of_frames() {
    let mut pool = AgentMemoryPool::new();
    let mut frames = BitmapFrameAllocator::new(64, 0x20_0000, 1);
    let (addr, maps) = pool.allocate(4, 64 * 4096, &mut frames, READY, &mut None, 0);
    assert_eq!(addr, None);
    assert!(maps.is_empty());
    assert_eq!(frames.free_frames(), 63);
    assert_eq!(pool.next_address(), AGENT_MEMORY_START);
    let (again, _) = pool.allocate(4, 4096, &mut frames, READY, &mut None, 0);
    assert_eq!(again, Some(AGENT_MEMORY_START));
}

#[test]
fn global_pool_must_be_set_up() {
    let mut pool: Option<AgentMemoryPool> = None;
    let mut frames = BitmapFrameAllocator::new(4, 0, 1);
    assert_eq!(agent_pool::allocate_agent_memory(&mut pool, 1, 10, &mut frames, READY, &mut None, 0).0, None);
    agent_pool::init(&mut pool);
    assert_eq!(agent_pool::allocate_agent_memory(&mut pool, 1, 10, &mut frames, READY, &mut None, 0).0, Some(AGENT_MEMORY_START));
    assert_eq!(agent_pool::deallocate(&mut pool, AGENT_MEMORY_START, 1, &mut frames, READY).len(), 1);
}

#[test]
fn bump_allocator_aligns_and_runs_out() {
    let mut b = BumpAllocator::new(0x1001, 0x1100);
    assert_eq!(b.allocate(16, 16), 0x1010);
    assert_eq!(b.allocate(8, 8), 0x1020);
    assert_eq!(b.allocate(0x100, 8), 0);
    assert_eq!(b.allocate(8, 1), 0x1028);
    b.deallocate(0x1010, 16);
    assert_eq!(b.allocate(1, 1), 0x1030);
}

#[test]
fn fresh_manager_can_count_faults() {
    let mut pt = PageTableManager::new();
    assert!(pt.has_room_for(None));
    assert!(pt.has_room_for(Some(3)));
    let m = AgentMemoryMapping::new();
    let _ = pt.begin_page_fault(0x5000, 0, Some(3), &m, &mut None, 0);
    assert!(pt.has_room_for(Some(3)));
    assert_eq!(pt.get_page_fault_stats().0, 1);
}

#[test]
fn agents_get_their_own_page_tables() {
    let mut frames = BitmapFrameAllocator::new(64, 0x40_0000, 2);
    let mut none: Option<PageTableManager> = None;
    assert_eq!(create_agent_page_table(&mut none, 1, &mut frames), Err(PageTableError::NotInitialized));
    assert_eq!(switch_to_agent_page_table(&none, 1), Err(PageTableError::NotInitialized));
    let mut m = Some(PageTableManager::new());
    assert_eq!(switch_to_agent_page_table(&m, 1), Err(PageTableError::InvalidAgent));
    assert_eq!(create_agent_page_table(&mut m, 1, &mut frames), Ok(0x40_0000 + 2 * 4096));
    assert_eq!(create_agent_page_table(&mut m, 2, &mut frames), Ok(0x40_0000 + 3 * 4096));
    assert_eq!(switch_to_agent_page_table(&m, 1), Ok(0x40_0000 + 2 * 4096));
    assert_eq!(switch_to_agent_page_table(&m, 2), Ok(0x40_0000 + 3 * 4096));
    assert_eq!(frames.free_frames(), 60);
}

#[test]
fn page_table_needs_a_free_frame() {
    let mut frames = BitmapFrameAllocator::new(64, 0, 1);
    for _ in 0..63 {
        frames.allocate_frame();
    }
    let mut m = PageTableManager::new();
    assert_eq!(m.create_agent_table(5, &mut frames), Err(PageTableError::OutOfMemory));
    assert_eq!(m.agent_table(5), Err(PageTableError::InvalidAgent));
}

#[test]
fn pool_reports_its_next_address() {
    let mut pool = AgentMemoryPool::new();
    assert_eq!(pool.next_address(), AGENT_MEMORY_START);
    let mut frames = BitmapFrameAllocator::new(64, 0x20_0000, 1);
    pool.allocate(4, 5000, &mut frames, READY, &mut None, 0);
    assert_eq!(pool.next_address(), AGENT_MEMORY_START + 2 * 4096);
}
