use aios_kernel::error::{ErrorCategory, ErrorHandler, ErrorSeverity};
use aios_kernel::error_recovery::{
    degradation_level, retry_after, CircuitBreaker, DEFAULT_RETRY_ATTEMPTS, CircuitState, DegradationLevel, DegradationManager, ErrorRecoveryManager,
};
use aios_kernel::interrupts::{
    apic_present, decode_scan_code, mask_interrupt, pic_mask_port, send_eoi, unmask_interrupt, EoiTarget,
    InterruptTable,
};
use aios_kernel::capability::{CapabilityToken, SUPERVISOR};
use aios_kernel::capability_system::CapabilitySystem;
use aios_kernel::events::{EventType, KernelEventSystem};
use aios_kernel::smp::{current_cpu_id, detect_cpu_count, parse_madt_apic_id, parse_madt_cpu_count, SmpError, SmpManager};
use aios_kernel::time::{
    self, bcd_to_binary, calculate_aios_timestamp, days_since_1970, detect_time_source, get_frequency, is_leap_year,
    sleep_ms, sleep_over, wall_clock_from_rtc, TimeManager, TimeSource,
};

fn sup_token(id: u64) -> CapabilityToken {
    CapabilityToken { token_id: id, agent_id: 1, capabilities: SUPERVISOR, expires_at: u64::MAX, signature: [0u8; 64] }
}

#[test]
fn calendar_arithmetic() {
    assert!(is_leap_year(2000));
    assert!(is_leap_year(2024));
    assert!(!is_leap_year(1900));
    assert!(!is_leap_year(2023));
    assert_eq!(days_since_1970(1970, 1, 1), 0);
    assert_eq!(days_since_1970(1970, 3, 1), 59);
    assert_eq!(days_since_1970(2000, 1, 1), 10957);
    assert_eq!(days_since_1970(2024, 3, 1), 19783);
    assert_eq!(days_since_1970(1960, 1, 1), 0);
    assert_eq!(days_since_1970(1960, 3, 2), 60 + 1);
    assert_eq!(calculate_aios_timestamp(1970, 1, 2, 1, 1, 1), 86400 + 3661);
}

#[test]
fn rtc_values_are_bcd() {
    assert_eq!(bcd_to_binary(0x59), 59);
    assert_eq!(bcd_to_binary(0x09), 9);
    assert_eq!(wall_clock_from_rtc(0x00, 0x00, 0x00, 0x01, 0x01, 0x00), Some(10957 * 86400 * 1_000_000_000));
    assert_eq!(wall_clock_from_rtc(0x00, 0x00, 0x00, 0x00, 0x01, 0x00), None);
}

#[test]
fn time_source_choice() {
    assert_eq!(detect_time_source(true, true), TimeSource::Hpet);
    assert_eq!(detect_time_source(false, true), TimeSource::Tsc);
    assert_eq!(detect_time_source(false, false), TimeSource::Pit);
    assert_eq!(get_frequency(TimeSource::Tsc, None, None), 2_400_000_000);
    assert_eq!(get_frequency(TimeSource::Tsc, Some(3), None), 3);
    assert_eq!(get_frequency(TimeSource::Hpet, None, None), 10_000_000);
    assert_eq!(get_frequency(TimeSource::Pit, Some(3), Some(4)), 1_193_182);
    assert_eq!(sleep_ms(3), 3_000_000);
    assert!(sleep_over(10, 20, 10));
    assert!(!sleep_over(10, 19, 10));
}

#[test]
fn clock_reads_zero_before_setup() {
    let none: Option<TimeManager> = None;
    assert_eq!(time::now(&none, 55), 0);
    let m = Some(TimeManager::init(TimeSource::Tsc, 1, 1000));
    assert_eq!(time::now(&m, 55), 55);
    assert_eq!(m.as_ref().unwrap().system_time(55), 1055);
}

#[test]
fn timers_fire_and_repeat() {
    let mut m = TimeManager::init(TimeSource::Pit, 1, 0);
    let a = m.create_timer(100, 10, false, 0);
    let b = m.create_timer(200, 20, true, 0);
    let c = m.create_timer(300, 50, false, 0);
    assert_eq!((a, b, c), (1, 2, 3));
    assert_eq!(m.due_timers(25), vec![(1, 100), (2, 200)]);
    m.process_timers(25, &vec![(2, true)]);
    assert!(m.due_timers(40).is_empty());
    assert_eq!(m.due_timers(45), vec![(2, 200)]);
    m.cancel_timer(2);
    assert_eq!(m.due_timers(60), vec![(3, 300)]);
}

#[test]
fn repeating_timer_stops_when_told() {
    let mut m = TimeManager::init(TimeSource::Pit, 1, 0);
    m.create_timer(7, 5, true, 0);
    m.process_timers(5, &vec![(1, false)]);
    assert!(m.due_timers(1000).is_empty());
}

#[test]
fn madt_is_walked() {
    let mut t = vec![0u8; 0x2C];
    t.extend_from_slice(&[0, 8, 0, 3, 1, 0, 0, 0]);
    t.extend_from_slice(&[1, 12, 0, 0, 0, 0, 0, 0, 0, 0, 0, 0]);
    t.extend_from_slice(&[9, 16, 0, 0, 0x21, 0x01, 0, 0, 1, 0, 0, 0, 0, 0, 0, 0]);
    let len = t.len() as u32;
    t[4..8].copy_from_slice(&len.to_le_bytes());
    assert_eq!(parse_madt_cpu_count(&t), 2);
    assert_eq!(parse_madt_apic_id(&t, 0), Some(3));
    assert_eq!(parse_madt_apic_id(&t, 1), Some(0x121));
    assert_eq!(parse_madt_apic_id(&t, 2), None);
    let empty = {
        let mut e = vec![0u8; 0x2C];
        e[4] = 0x2C;
        e
    };
    assert_eq!(parse_madt_cpu_count(&empty), 1);
    assert_eq!(detect_cpu_count(Some(4), 0, (0, 0)), 4);
    assert_eq!(detect_cpu_count(Some(0), 0, (0, 0)), 1);
    assert_eq!(detect_cpu_count(None, 11, (2, 8)), 1);
    assert_eq!(current_cpu_id(0x0300_0000), 3);
}

#[test]
fn cpus_start_and_stop() {
    let mut ev = Some(KernelEventSystem::new());
    let mut m = SmpManager::init(3, 0, &vec![10, 11, 12], &mut ev, 1);
    assert_eq!(ev.as_ref().unwrap().bus.queue_len(), 1);
    assert_eq!(m.cpu_count(), 3);
    assert_eq!(m.online_cpu_count(), 1);
    assert_eq!(m.start_cpu(1, &mut ev, 2), Ok(11));
    assert_eq!(m.start_cpu(1, &mut ev, 3), Err(SmpError::AlreadyOnline));
    assert_eq!(m.start_cpu(5, &mut ev, 4), Err(SmpError::InvalidCpu));
    assert_eq!(ev.as_ref().unwrap().bus.queue_len(), 2);
    assert_eq!(m.online_cpu_count(), 2);
    assert_eq!(m.stop_cpu(0, &mut ev, 5), Err(SmpError::CannotStopBootCpu));
    assert_eq!(m.stop_cpu(1, &mut ev, 6), Ok(()));
    assert_eq!(m.stop_cpu(1, &mut ev, 7), Err(SmpError::AlreadyOffline));
    let last = ev.as_ref().unwrap().bus.queued_event(2).unwrap();
    assert_eq!((last.event_type, last.timestamp, last.agent_id), (EventType::Performance, 6, None));
    assert_eq!(ev.as_ref().unwrap().bus.queue_len(), 3);
    assert_eq!(m.online_cpu_count(), 1);
    assert!(m.get_per_cpu_data(2).unwrap().runqueue.is_empty());
    assert!(m.get_per_cpu_data(3).is_none());
    assert_eq!(m.load_balance(), None);
}

#[test]
fn stopped_cpu_hands_its_agents_over() {
    let mut ev = None;
    let mut m = SmpManager::init(3, 0, &vec![10, 11, 12], &mut ev, 0);
    let sys = CapabilitySystem::new();
    let sup = sup_token(1);
    m.start_cpu(2, &mut ev, 0).unwrap();
    m.set_agent_affinity(7, 0, Some(&sup), Some(&sys)).unwrap();
    m.set_agent_affinity(8, 2, Some(&sup), Some(&sys)).unwrap();
    m.set_agent_affinity(9, 2, Some(&sup), Some(&sys)).unwrap();
    assert_eq!(m.stop_cpu(2, &mut ev, 0), Ok(()));
    assert!(m.get_per_cpu_data(2).unwrap().runqueue.is_empty());
    assert_eq!(m.get_per_cpu_data(0).unwrap().runqueue, vec![7, 8, 9]);
}

#[test]
fn scan_codes_decode() {
    let e = decode_scan_code(0x1E);
    assert!(e.pressed);
    assert_eq!(e.scan_code, 0x1E);
    let r = decode_scan_code(0x9E);
    assert!(!r.pressed);
    assert_eq!(r.key_code, e.key_code);
    assert_eq!(decode_scan_code(0x02).key_code, 0x31);
    assert_eq!(decode_scan_code(0x01).key_code, 0x1B);
}

#[test]
fn pic_and_apic_decisions() {
    assert!(apic_present(0x200));
    assert!(!apic_present(0x100));
    assert_eq!(send_eoi(3, true), EoiTarget::Apic);
    assert_eq!(send_eoi(3, false), EoiTarget::MasterPic);
    assert_eq!(send_eoi(9, false), EoiTarget::SlaveAndMasterPic);
    assert_eq!(pic_mask_port(3), 0x21);
    assert_eq!(pic_mask_port(12), 0xA1);
    assert_eq!(mask_interrupt(0, 3), 0x08);
    assert_eq!(mask_interrupt(0, 11), 0x08);
    assert_eq!(unmask_interrupt(0xFF, 3), 0xF7);
    assert_eq!(unmask_interrupt(mask_interrupt(0x41, 5), 5), 0x41);
}

#[test]
fn interrupt_handlers_and_latency() {
    let mut t = InterruptTable::new();
    t.register_handler(1, 100);
    t.register_handler(1, 101);
    assert_eq!(t.call_handlers(1, 10), vec![100, 101]);
    assert_eq!(t.call_handlers(1, 25), vec![100, 101]);
    assert_eq!(t.call_handlers(1, 30), vec![100, 101]);
    assert_eq!(t.get_stats(1), Some((3, 15)));
    assert!(t.call_handlers(2, 5).is_empty());
    assert_eq!(t.get_stats(2), Some((1, 0)));
    assert_eq!(t.get_stats(3), None);
    assert_eq!(t.get_all_stats().len(), 2);
}

#[test]
fn error_propagation_by_severity() {
    let e = ErrorHandler::create(ErrorCategory::IO, ErrorSeverity::Error, 5, Some(2), 77);
    assert_eq!(e.timestamp, 77);
    assert!(ErrorHandler::should_retry(&e, 2));
    assert!(!ErrorHandler::should_retry(&e, 3));
    assert!(!ErrorHandler::should_escalate(&e));
    let c = ErrorHandler::create(ErrorCategory::Security, ErrorSeverity::Critical, 1, None, 0);
    assert!(ErrorHandler::should_retry(&c, 0));
    assert!(!ErrorHandler::should_retry(&c, 1));
    assert!(ErrorHandler::should_escalate(&c));
    assert_eq!(ErrorHandler::get_propagation_rules(&c).escalate_to, Some(0));
    let f = ErrorHandler::create(ErrorCategory::System, ErrorSeverity::Fatal, 1, None, 0);
    assert!(!ErrorHandler::should_retry(&f, 0));
    assert!(ErrorHandler::should_escalate(&f));
    let w = ErrorHandler::create(ErrorCategory::System, ErrorSeverity::Warning, 1, None, 0);
    assert!(!ErrorHandler::should_retry(&w, 0));
    assert!(!ErrorHandler::should_escalate(&w));
}

#[test]
fn breaker_opens_and_recovers() {
    let mut b = CircuitBreaker::new(2, 100);
    assert!(b.is_allowed(0));
    b.record_failure(10);
    assert_eq!(b.state, CircuitState::Closed);
    b.record_failure(20);
    assert_eq!(b.state, CircuitState::Open);
    assert!(!b.is_allowed(50));
    assert!(b.is_allowed(120));
    assert_eq!(b.state, CircuitState::HalfOpen);
    b.record_success();
    assert_eq!(b.state, CircuitState::Closed);
    assert_eq!(b.failure_count, 0);
}

#[test]
fn breakers_per_resource() {
    let mut m = ErrorRecoveryManager::new();
    assert!(m.check_circuit_breaker(4, 0));
    for t in 1..=5 {
        m.record_circuit_breaker_failure(4, t);
    }
    assert!(!m.check_circuit_breaker(4, 6));
    assert!(m.check_circuit_breaker(9, 6));
    assert!(m.check_circuit_breaker(4, 5 + 1_000_000_000));
    m.record_circuit_breaker_success(4);
    assert!(m.check_circuit_breaker(4, 5 + 1_000_000_001));
}

#[test]
fn degradation_counts_available_resources() {
    let mut d = DegradationManager::new();
    assert_eq!(d.get_level(), DegradationLevel::Normal);
    d.set_resource_available(1, true);
    assert_eq!(d.get_level(), DegradationLevel::Normal);
    d.set_resource_available(2, false);
    assert_eq!(d.get_level(), DegradationLevel::Minimal);
    d.set_resource_available(1, false);
    assert_eq!(d.get_level(), DegradationLevel::Emergency);
    d.set_resource_available(2, true);
    assert_eq!(d.get_level(), DegradationLevel::Minimal);
}

#[test]
fn degradation_thresholds() {
    assert_eq!(degradation_level(0, 0), DegradationLevel::Normal);
    assert_eq!(degradation_level(9, 10), DegradationLevel::Normal);
    assert_eq!(degradation_level(8, 10), DegradationLevel::Reduced);
    assert_eq!(degradation_level(7, 10), DegradationLevel::Reduced);
    assert_eq!(degradation_level(6, 10), DegradationLevel::Minimal);
    assert_eq!(degradation_level(5, 10), DegradationLevel::Minimal);
    assert_eq!(degradation_level(4, 10), DegradationLevel::Emergency);
    assert_eq!(degradation_level(u64::MAX - 1, u64::MAX - 1), DegradationLevel::Normal);
}

#[test]
fn retry_decision() {
    assert!(retry_after(0, false));
    assert!(retry_after(1, false));
    assert!(!retry_after(2, false));
    assert!(!retry_after(0, true));
}

#[test]
fn retry_stops_at_the_first_success() {
    let m = ErrorRecoveryManager::new();
    let calls = std::cell::Cell::new(0u32);
    let waits = std::cell::RefCell::new(Vec::new());
    let op = || -> Result<u32, u32> {
        calls.set(calls.get() + 1);
        if calls.get() < 2 { Err(calls.get()) } else { Ok(calls.get()) }
    };
    let wait = |a: u32| waits.borrow_mut().push(a);
    assert_eq!(m.execute_with_retry(&op, 7, &wait), (Ok(2), 2));
    assert_eq!(*waits.borrow(), vec![0]);
}

#[test]
fn retry_gives_up_after_the_default_attempts() {
    let m = ErrorRecoveryManager::new();
    let calls = std::cell::Cell::new(0u32);
    let waits = std::cell::RefCell::new(Vec::new());
    let op = || -> Result<u32, u32> {
        calls.set(calls.get() + 1);
        Err(calls.get())
    };
    let wait = |a: u32| waits.borrow_mut().push(a);
    assert_eq!(m.execute_with_retry(&op, 7, &wait), (Err(DEFAULT_RETRY_ATTEMPTS), DEFAULT_RETRY_ATTEMPTS));
    assert_eq!(*waits.borrow(), vec![0, 1]);
}

#[test]
fn timer_bookkeeping_is_visible() {
    let mut m = TimeManager::init(TimeSource::Hpet, 10_000_000, 0);
    assert_eq!(m.frequency(), 10_000_000);
    assert_eq!(m.next_timer_id(), 1);
    m.create_timer(1, 10, true, 0);
    assert_eq!(m.next_timer_id(), 2);
    assert!(m.can_reschedule(10));
    m.create_timer(2, u64::MAX - 20, true, 20);
    assert!(m.can_reschedule(20));
    assert!(!m.can_reschedule(u64::MAX));
}

#[test]
fn interrupt_counting_needs_time_to_move_on() {
    let mut t = InterruptTable::new();
    assert!(t.can_count(4, 0));
    t.update_stats(4, 50);
    assert!(t.can_count(4, 50));
    assert!(!t.can_count(4, 49));
}
