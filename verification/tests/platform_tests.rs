use aios_kernel::agent::{Agent, AgentSpec, AgentState};
use aios_kernel::agent_mapping::AgentMemoryMapping;
use aios_kernel::ai_healing::{execute_step, HealingError, RecoveryStep, ResourceAllocation};
use aios_kernel::boot_info::{boot_info_valid, get_boot_info, set_boot_info, BootInfo, BOOT_INFO_MAGIC};
use aios_kernel::bootloader::{self, BootMethod, InitramfsInfo};
use aios_kernel::capability::{CapabilityToken, ADMIN, SUPERVISOR};
use aios_kernel::capability_system::CapabilitySystem;
use aios_kernel::drivers::acpi_tree::parse_acpi_tree;
use aios_kernel::drivers::sata::{sector_words, SECTOR_SIZE};
use aios_kernel::drivers::sgx::{detect_sgx_features, SgxDriver};
use aios_kernel::events::{EventBus, EventSubscription, EventType, KernelEvent, KernelEventSystem};
use aios_kernel::exceptions::{handle_exception, should_kill_on_violation, ExceptionAction, ExceptionKind};
use aios_kernel::interrupts::InterruptTable;
use aios_kernel::log::{self, format_message, print_stack_trace, rank, LogLevel, Logger};
use aios_kernel::ml_client::{cache_fresh, CACHE_TTL_NS};
use aios_kernel::scheduler::AgentScheduler;
use aios_kernel::smp::{SmpError, SmpManager};
use aios_kernel::virtual_mem::empty_page_fault_stats;

fn token(id: u64, caps: u64) -> CapabilityToken {
    CapabilityToken { token_id: id, agent_id: 1, capabilities: caps, expires_at: u64::MAX, signature: [0u8; 64] }
}

#[test]
fn double_fault_always_panics() {
    let mut m = AgentMemoryMapping::new();
    m.register_agent_region(7, 0x10000, 0x12000);
    assert_eq!(handle_exception(&m, ExceptionKind::DoubleFault, 0x10000), ExceptionAction::KernelPanic);
}

#[test]
fn fault_in_a_sandbox_kills_its_agent() {
    let mut m = AgentMemoryMapping::new();
    m.register_agent_region(7, 0x10000, 0x12000);
    assert_eq!(handle_exception(&m, ExceptionKind::PageFault, 0x11234), ExceptionAction::KillAgent(7));
    assert_eq!(
        handle_exception(&m, ExceptionKind::GeneralProtectionFault, 0x10000),
        ExceptionAction::KillAgent(7)
    );
    assert_eq!(handle_exception(&m, ExceptionKind::PageFault, 0x20000), ExceptionAction::KernelPanic);
    assert!(should_kill_on_violation(7, ExceptionKind::InvalidOpcode));
}

#[test]
fn boot_info_is_kept_only_with_its_magic() {
    let info = bootloader::create_boot_info(0x4000);
    assert_eq!(info.magic, BOOT_INFO_MAGIC);
    assert_eq!(info.version, 1);
    assert_eq!(info.initramfs_base, 0x4000);
    assert!(boot_info_valid(&info));
    let bad = BootInfo { magic: 1, ..info };
    assert!(!boot_info_valid(&bad));
    let mut slot: Option<BootInfo> = None;
    assert_eq!(get_boot_info(&slot), None);
    set_boot_info(&mut slot, info);
    assert_eq!(get_boot_info(&slot), Some(info));
}

#[test]
fn bootloader_stubs() {
    assert!(!bootloader::is_available());
    assert_eq!(bootloader::load_kernel(), 0);
    assert!(bootloader::get_memory_map().is_empty());
    assert!(!bootloader::verify_kernel_signature(&[1, 2], &[3]));
    assert!(!bootloader::verify_kernel_signature(&[1, 2, 3], &[]));
    assert!(!bootloader::verify_initramfs_signature(&[1, 2], &[3]));
    assert!(!bootloader::verify_initramfs_signature(&[1, 2, 3], &[0u8; 64]));
    assert!(bootloader::get_public_key().is_empty());
    assert_eq!(bootloader::load(), 0);
    assert_eq!(bootloader::parse(0x9000), InitramfsInfo { base: 0x9000, size: 0 });
    assert_eq!(bootloader::detect_boot_method(true), BootMethod::Uefi);
    assert_eq!(bootloader::detect_boot_method(false), BootMethod::Multiboot);
}

#[test]
fn ml_cache_expires_after_its_ttl() {
    assert!(cache_fresh(1000, 1000, CACHE_TTL_NS));
    assert!(cache_fresh(1000 + CACHE_TTL_NS - 1, 1000, CACHE_TTL_NS));
    assert!(!cache_fresh(1000 + CACHE_TTL_NS, 1000, CACHE_TTL_NS));
    assert!(cache_fresh(5, 10, CACHE_TTL_NS));
}

#[test]
fn log_levels_are_ordered() {
    assert!(rank(LogLevel::Trace) < rank(LogLevel::Debug));
    assert!(rank(LogLevel::Debug) < rank(LogLevel::Info));
    assert!(rank(LogLevel::Info) < rank(LogLevel::Warn));
    assert!(rank(LogLevel::Warn) < rank(LogLevel::Error));
    assert!(rank(LogLevel::Error) < rank(LogLevel::Fatal));
}

#[test]
fn log_lines_name_their_level() {
    assert_eq!(format_message(LogLevel::Warn, "disk"), "[WARN] disk\n");
    assert_eq!(format_message(LogLevel::Fatal, ""), "[FATAL] \n");
}

#[test]
fn logger_drops_messages_below_its_level() {
    let mut logger: Option<Logger> = None;
    assert_eq!(log::log(&mut logger, LogLevel::Error, "lost", 1), None);
    log::init(&mut logger, LogLevel::Info, 2);
    assert_eq!(log::log(&mut logger, LogLevel::Debug, "quiet", 2), None);
    assert_eq!(log::log(&mut logger, LogLevel::Info, "a", 3), Some(String::from("[INFO] a\n")));
    assert_eq!(log::log(&mut logger, LogLevel::Error, "b", 4), Some(String::from("[ERROR] b\n")));
    assert_eq!(log::log(&mut logger, LogLevel::Warn, "c", 5), Some(String::from("[WARN] c\n")));
    assert_eq!(
        print_stack_trace(&mut logger, 6),
        Some(String::from("[ERROR] Stack trace not yet implemented\n"))
    );
    let mut quiet: Option<Logger> = None;
    log::init(&mut quiet, LogLevel::Fatal, 4);
    assert_eq!(print_stack_trace(&mut quiet, 7), None);
}

#[test]
fn event_bus_queues_and_unsubscribes() {
    let mut bus = EventBus::new();
    let id = bus.subscribe(EventSubscription::new(vec![EventType::Device], None, 5));
    assert_eq!(id, 1);
    bus.publish(KernelEvent { event_type: EventType::Device, timestamp: 3, agent_id: None, data: vec![1] });
    bus.publish(KernelEvent { event_type: EventType::Security, timestamp: 4, agent_id: Some(2), data: vec![] });
    assert_eq!(bus.queue_len(), 2);
    bus.unsubscribe(id);
    assert_eq!(bus.queue_len(), 2);
    assert_eq!(bus.subscribe(EventSubscription::new(vec![], Some(2), 6)), 2);
}

#[test]
fn only_escalation_fails() {
    let mut ev = Some(KernelEventSystem::new());
    assert!(execute_step(&RecoveryStep::ClearCache, &mut ev, 1).is_ok());
    assert!(execute_step(&RecoveryStep::ResetState, &mut ev, 2).is_ok());
    assert!(execute_step(&RecoveryStep::RestartComponent(String::from("net")), &mut ev, 3).is_ok());
    let alloc = ResourceAllocation { cpu_cores: 1, memory_bytes: 4096 };
    assert!(execute_step(&RecoveryStep::ReallocateResources(6, alloc), &mut ev, 4).is_ok());
    assert_eq!(execute_step(&RecoveryStep::EscalateToOperator, &mut ev, 5), Err(HealingError::EscalationRequired));
    let bus = &ev.as_ref().unwrap().bus;
    assert_eq!(bus.queue_len(), 4);
    let first = bus.queued_event(0).unwrap();
    assert_eq!((first.event_type, first.timestamp, first.agent_id), (EventType::System, 1, None));
    let last = bus.queued_event(3).unwrap();
    assert_eq!((last.event_type, last.timestamp, last.agent_id), (EventType::System, 4, Some(6)));
}

#[test]
fn sector_words_are_little_endian() {
    let mut buf = vec![0u8; SECTOR_SIZE + 4];
    buf[0] = 0x34;
    buf[1] = 0x12;
    buf[510] = 0xFF;
    buf[511] = 0x01;
    let w = sector_words(&buf);
    assert_eq!(w.len(), 256);
    assert_eq!(w[0], 0x1234);
    assert_eq!(w[255], 0x01FF);
    assert_eq!(w[1], 0);
}

#[test]
fn page_fault_stats_start_at_zero() {
    let (a, b, c, d, by_agent) = empty_page_fault_stats();
    assert_eq!((a, b, c, d), (0, 0, 0, 0));
    assert!(by_agent.is_empty());
}

#[test]
fn no_acpi_tree_without_a_parser() {
    assert!(parse_acpi_tree().is_none());
}

#[test]
fn interrupt_stats_track_the_largest_gap() {
    let mut t = InterruptTable::new();
    assert_eq!(t.get_stats(3), None);
    t.update_stats(3, 10);
    assert_eq!(t.get_stats(3), Some((1, 0)));
    t.update_stats(3, 25);
    assert_eq!(t.get_stats(3), Some((2, 15)));
    t.update_stats(3, 30);
    assert_eq!(t.get_stats(3), Some((3, 15)));
}

#[test]
fn sgx_features_come_from_cpuid() {
    let f = detect_sgx_features(true, 4);
    assert!(f.sgx1);
    assert!(!f.sgx2);
    let d = SgxDriver::init(f).unwrap();
    assert_eq!(d.features(), f);
    assert!(!detect_sgx_features(true, 0).sgx1);
    assert!(!detect_sgx_features(false, 4).sgx1);
    assert!(SgxDriver::init(detect_sgx_features(false, 4)).is_none());
}

#[test]
fn agent_state_can_be_set() {
    let spec = AgentSpec { id: 9, capabilities: vec![], memory_limit: 4096, cpu_limit: 10 };
    let mut a = Agent::new(spec).unwrap();
    assert_eq!(a.state(), AgentState::Created);
    a.set_state(AgentState::Running);
    assert_eq!(a.state(), AgentState::Running);
    assert_eq!(a.id(), 9);
}

#[test]
fn yield_charges_nothing() {
    let mut s = AgentScheduler::new();
    s.add_agent(1, 1024, 0);
    s.update_runtime(1, 300);
    s.yield_agent(1);
    assert_eq!(s.get_stats(1).unwrap().vruntime, 300);
    assert_eq!(s.get_stats(1).unwrap().time_used, 300);
    s.yield_agent(5);
    assert!(s.get_stats(5).is_none());
}

#[test]
fn capability_preemption() {
    let mut s = AgentScheduler::new();
    s.add_agent(1, 1024, 0);
    s.add_agent(2, 1024, 0);
    let sys = CapabilitySystem::new();
    let admin = token(1, ADMIN);
    let sup = token(2, SUPERVISOR);
    let plain = token(3, 0);
    assert!(s.should_preempt_by_capability(1, 2, Some(&plain), Some(&admin), Some(&sys)));
    assert!(!s.should_preempt_by_capability(1, 2, Some(&admin), Some(&plain), Some(&sys)));
    assert!(s.should_preempt_by_capability(1, 2, Some(&plain), Some(&sup), Some(&sys)));
    assert!(!s.should_preempt_by_capability(1, 2, Some(&plain), Some(&plain), Some(&sys)));
    assert!(!s.should_preempt_by_capability(1, 2, None, Some(&admin), Some(&sys)));
}

#[test]
fn affinity_needs_supervisor_and_an_online_cpu() {
    let mut m = SmpManager::init(2, 0, &vec![10, 11], &mut None, 0);
    let sys = CapabilitySystem::new();
    let sup = token(1, SUPERVISOR);
    let plain = token(2, 0);
    assert_eq!(m.set_agent_affinity(5, 0, Some(&plain), Some(&sys)), Err(SmpError::InvalidCpu));
    assert_eq!(m.set_agent_affinity(5, 0, None, Some(&sys)), Err(SmpError::InvalidCpu));
    assert_eq!(m.set_agent_affinity(5, 1, Some(&sup), Some(&sys)), Err(SmpError::InvalidCpu));
    assert_eq!(m.set_agent_affinity(5, 0, Some(&sup), Some(&sys)), Ok(()));
    assert_eq!(m.set_agent_affinity(5, 0, Some(&sup), Some(&sys)), Ok(()));
    assert_eq!(m.get_per_cpu_data(0).unwrap().runqueue, vec![5]);
}
