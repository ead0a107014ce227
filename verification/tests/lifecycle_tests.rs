use aios_kernel::agent::{AgentError, AgentManager, AgentSpec, AgentState};
use aios_kernel::agent_pool::{AgentMemoryPool, AGENT_MEMORY_START};
use aios_kernel::events::{publish_event, subscribe, EventType, KernelEvent, KernelEventSystem};
use aios_kernel::fabric::MemoryFabricManager;
use aios_kernel::lifecycle::{
    clone_target_id, parse_spawn_spec, AgentLifecycleManager, LifecycleContext, LifecycleEnv, LifecycleError,
    LifecycleHook, LifecycleOperation, DEFAULT_CPU_LIMIT, DEFAULT_MEMORY_LIMIT, SPLIT_ID_OFFSET,
};
use aios_kernel::physical::BitmapFrameAllocator;
use aios_kernel::virtual_mem::PagingState;

const READY: PagingState = PagingState { initialized: true, has_table: true, has_frame_allocator: true };

fn env() -> LifecycleEnv {
    LifecycleEnv {
        pool: Some(AgentMemoryPool::new()),
        frames: BitmapFrameAllocator::new(1024, 0x100_0000, 1),
        paging: READY,
        fabric: Some(MemoryFabricManager::new()),
        events: Some(KernelEventSystem::new()),
    }
}

fn queued(e: &LifecycleEnv) -> usize {
    e.events.as_ref().unwrap().bus.queue_len()
}

#[test]
fn agents_spawn_into_the_scheduler() {
    let mut m = AgentManager::new();
    let spec = AgentSpec { id: 42, capabilities: vec![1], memory_limit: 4096, cpu_limit: 50 };
    assert_eq!(m.spawn_agent(spec), Ok(42));
    let a = m.get_agent(42).unwrap();
    assert_eq!(a.id(), 42);
    assert_eq!(a.state(), AgentState::Created);
    assert!(m.scheduler.get_stats(42).is_some());
    assert!(m.get_agent(43).is_none());
    let bad = AgentSpec { id: 44, capabilities: vec![], memory_limit: 0, cpu_limit: 1 };
    assert_eq!(m.spawn_agent(bad), Err(AgentError::InvalidSpec));
}

#[test]
fn event_bus_queues_and_subscribes() {
    let mut sys: Option<KernelEventSystem> = None;
    assert_eq!(subscribe(&mut sys, vec![EventType::Security], None, 5), 0);
    sys = Some(KernelEventSystem::new());
    assert_eq!(subscribe(&mut sys, vec![EventType::Security], None, 5), 1);
    assert_eq!(subscribe(&mut sys, vec![EventType::Device], Some(3), 6), 2);
    publish_event(&mut sys, KernelEvent { event_type: EventType::Device, timestamp: 1, agent_id: None, data: vec![] });
    assert_eq!(sys.as_ref().unwrap().bus.queue_len(), 1);
}

#[test]
fn spawn_metadata_is_parsed() {
    let mut md = vec![1u8, 2, 3, 4, 5, 6, 7, 8];
    md.extend_from_slice(&0x1234_5678_9ABCu64.to_le_bytes());
    md.extend_from_slice(&75u32.to_le_bytes());
    let s = parse_spawn_spec(9, &md);
    assert_eq!(s.id, 9);
    assert_eq!(s.capabilities, vec![1, 2, 3, 4, 5, 6, 7, 8]);
    assert_eq!(s.memory_limit, 0x1234_5678_9ABC);
    assert_eq!(s.cpu_limit, 75);
    let d = parse_spawn_spec(9, &vec![1, 2, 3]);
    assert!(d.capabilities.is_empty());
    assert_eq!(d.memory_limit, DEFAULT_MEMORY_LIMIT);
    assert_eq!(d.cpu_limit, DEFAULT_CPU_LIMIT);
}

#[test]
fn clone_identifiers() {
    assert_eq!(clone_target_id(5, Some(77), 123), 77);
    let expected = (123u64 ^ 5u64.wrapping_mul(0x9e37_79b9)) & 0x7FFF_FFFF_FFFF_FFFF;
    assert_eq!(clone_target_id(5, None, 123), expected);
    assert_eq!(clone_target_id(u64::MAX, None, u64::MAX) >> 63, 0);
}

#[test]
fn hooks_run_by_priority() {
    let mut m = AgentLifecycleManager::new();
    m.register_hook(LifecycleHook { hook_type: LifecycleOperation::Spawn, callback: 1, priority: 5 });
    m.register_hook(LifecycleHook { hook_type: LifecycleOperation::Kill, callback: 2, priority: 0 });
    m.register_hook(LifecycleHook { hook_type: LifecycleOperation::Spawn, callback: 3, priority: 1 });
    m.register_hook(LifecycleHook { hook_type: LifecycleOperation::Spawn, callback: 4, priority: 5 });
    assert_eq!(m.hooks_for(LifecycleOperation::Spawn), vec![3, 1, 4]);
    assert_eq!(m.hooks_for(LifecycleOperation::Kill), vec![2]);
    assert!(m.hooks_for(LifecycleOperation::Merge).is_empty());
}

#[test]
fn failing_hook_stops_the_rest() {
    let mut m = AgentLifecycleManager::new();
    m.register_hook(LifecycleHook { hook_type: LifecycleOperation::Spawn, callback: 1, priority: 0 });
    m.register_hook(LifecycleHook { hook_type: LifecycleOperation::Spawn, callback: 2, priority: 1 });
    m.register_hook(LifecycleHook { hook_type: LifecycleOperation::Spawn, callback: 3, priority: 2 });
    let ctx = LifecycleContext { operation: LifecycleOperation::Spawn, agent_id: 8, target_id: None, metadata: vec![] };
    let seen = std::cell::RefCell::new(Vec::new());
    let call = |cb: u64, agent: u64, _c: &LifecycleContext| -> Result<(), LifecycleError> {
        seen.borrow_mut().push((cb, agent));
        if cb == 2 { Err(LifecycleError::SecurityViolation) } else { Ok(()) }
    };
    assert_eq!(m.run_hooks(&ctx, &call), Err(LifecycleError::SecurityViolation));
    assert_eq!(*seen.borrow(), vec![(1, 8), (2, 8)]);
}

#[test]
fn failed_hooks_leave_everything_but_the_audit() {
    let mut m = AgentLifecycleManager::new();
    let mut e = env();
    let out = m.execute(LifecycleOperation::Spawn, 1, None, vec![], Err(LifecycleError::DependencyFailed), &mut e, 10);
    assert_eq!(out.result, Err(LifecycleError::DependencyFailed));
    assert!(out.mappings.is_empty());
    assert_eq!(queued(&e), 0);
    assert_eq!(e.frames.free_frames(), 1023);
}

#[test]
fn spawn_allocates_a_megabyte() {
    let mut m = AgentLifecycleManager::new();
    let mut e = env();
    let out = m.execute(LifecycleOperation::Spawn, 1, None, vec![], Ok(()), &mut e, 10);
    assert_eq!(out.result, Ok(1));
    assert_eq!(out.mappings.len(), 256);
    assert_eq!(out.mappings[0].page, AGENT_MEMORY_START);
    assert_eq!(out.spawned.as_ref().unwrap().memory_limit, DEFAULT_MEMORY_LIMIT);
    assert_eq!(e.frames.free_frames(), 1023 - 256);
    // a memory and a virtual-memory notice per page, then the spawn event
    assert_eq!(queued(&e), 2 * 256 + 1);
}

#[test]
fn spawn_without_memory_is_refused() {
    let mut m = AgentLifecycleManager::new();
    let mut e = env();
    e.pool = None;
    let out = m.execute(LifecycleOperation::Spawn, 1, None, vec![], Ok(()), &mut e, 10);
    assert_eq!(out.result, Err(LifecycleError::ResourceExhausted));
    assert!(out.spawned.is_none());
    assert_eq!(queued(&e), 0);
}

#[test]
fn clone_split_merge_and_kill() {
    let mut m = AgentLifecycleManager::new();
    let mut e = env();
    assert_eq!(m.execute(LifecycleOperation::Clone, 2, Some(30), vec![], Ok(()), &mut e, 10).result, Ok(30));
    assert_eq!(m.execute(LifecycleOperation::Split, 2, None, vec![], Ok(()), &mut e, 10).result, Ok(2 + SPLIT_ID_OFFSET));
    assert_eq!(
        m.execute(LifecycleOperation::Merge, 2, None, vec![], Ok(()), &mut e, 10).result,
        Err(LifecycleError::InvalidOperation)
    );
    assert_eq!(m.execute(LifecycleOperation::Merge, 2, Some(30), vec![], Ok(()), &mut e, 10).result, Ok(30));
    assert_eq!(m.execute(LifecycleOperation::Kill, 2, None, vec![], Ok(()), &mut e, 10).result, Ok(2));
    // clone, split and the successful merge each publish a region notice and a
    // lifecycle event; kill publishes its lifecycle event only
    assert_eq!(queued(&e), 7);
}

#[test]
fn upgrade_and_specialize() {
    let mut m = AgentLifecycleManager::new();
    let mut e = env();
    let out = m.execute(LifecycleOperation::Upgrade, 3, None, 0x0405u64.to_le_bytes().to_vec(), Ok(()), &mut e, 10);
    assert_eq!(out.result, Ok(3));
    assert_eq!(out.upgraded_capabilities, Some(0x0405));
    assert_eq!(m.execute(LifecycleOperation::Upgrade, 3, None, vec![], Ok(()), &mut e, 10).upgraded_capabilities, None);
    assert_eq!(queued(&e), 2);
    m.execute(LifecycleOperation::Specialize, 3, None, vec![9], Ok(()), &mut e, 10);
    assert_eq!(queued(&e), 4);
    m.execute(LifecycleOperation::Specialize, 3, None, vec![], Ok(()), &mut e, 10);
    assert_eq!(queued(&e), 5);
}
