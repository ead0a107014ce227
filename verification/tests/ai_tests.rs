use aios_kernel::ai_adaptive::{
    detect_locality, predict_next_access, working_set_size, AICacheManager, AccessType, CachePolicy, LocalityPattern,
    MemoryAccess, MemoryPatternAnalyzer, SwapEvent, SwapPredictor,
};
use aios_kernel::ai_healing::{
    init_maintenance, predict_failure_type, recovery_procedure, trend_value, AutonomousHealer, FailureForecast,
    FailureType, HealingError, MaintenanceError, MaintenanceType, PredictiveMaintenance, RecoveryStep, Trend,
};
use aios_kernel::ai_scheduler::{
    day_of_week, detect_access_pattern, hour_counts, hour_of_day, push_bounded, typical_memory, AccessPattern,
    NANOS_PER_HOUR,
};

fn access(t: u64, virt: u64, phys: u64, agent: u64) -> MemoryAccess {
    MemoryAccess { timestamp: t, virtual_addr: virt, physical_addr: phys, access_type: AccessType::Read, agent_id: agent }
}

#[test]
fn hours_and_weekdays() {
    assert_eq!(hour_of_day(0), 0);
    assert_eq!(hour_of_day(25 * NANOS_PER_HOUR + 5), 1);
    assert_eq!(day_of_week(8 * 86_400_000_000_000), 1);
    let counts = hour_counts(&vec![0, NANOS_PER_HOUR, NANOS_PER_HOUR + 1, 24 * NANOS_PER_HOUR]);
    assert_eq!(counts.len(), 24);
    assert_eq!(counts[0], 2);
    assert_eq!(counts[1], 2);
    assert_eq!(counts[2], 0);
}

#[test]
fn typical_memory_is_the_mean() {
    assert_eq!(typical_memory(&vec![10, 20, 31]), 20);
    assert_eq!(typical_memory(&vec![7]), 7);
}

#[test]
fn rising_memory_is_sequential() {
    assert_eq!(detect_access_pattern(&(0..10).collect()), AccessPattern::Sequential);
    assert_eq!(detect_access_pattern(&vec![5; 10]), AccessPattern::Temporal);
    assert_eq!(detect_access_pattern(&(0..9).collect()), AccessPattern::Temporal);
    assert_eq!(detect_access_pattern(&vec![0, 1, 2, 3, 4, 5, 5, 5, 5, 5, 9, 10]), AccessPattern::Temporal);
}

#[test]
fn bounded_history_drops_the_oldest() {
    let mut h = vec![1, 2, 3];
    push_bounded(&mut h, 4, 3);
    assert_eq!(h, vec![2, 3, 4]);
    push_bounded(&mut h, 5, 5);
    assert_eq!(h, vec![2, 3, 4, 5]);
}

#[test]
fn failure_types_by_name() {
    assert_eq!(predict_failure_type("memory-pool"), FailureType::MemoryExhaustion);
    assert_eq!(predict_failure_type("cpu0"), FailureType::CPUOverload);
    assert_eq!(predict_failure_type("disk-io"), FailureType::IOFailure);
    assert_eq!(predict_failure_type("network"), FailureType::NetworkFailure);
    assert_eq!(predict_failure_type("radio"), FailureType::IOFailure);
    assert_eq!(predict_failure_type("net-service"), FailureType::ServiceCrash);
    assert_eq!(predict_failure_type("kernel"), FailureType::KernelPanic);
    assert_eq!(trend_value(Trend::Improving), 1);
    assert_eq!(trend_value(Trend::Critical), -2);
}

#[test]
fn recovery_procedures() {
    let mem = recovery_procedure(FailureType::MemoryExhaustion).unwrap();
    assert_eq!(mem.len(), 2);
    assert!(matches!(mem[0], RecoveryStep::ClearCache));
    match &mem[1] {
        RecoveryStep::ReallocateResources(agent, alloc) => {
            assert_eq!(*agent, 0);
            assert_eq!((alloc.cpu_cores, alloc.memory_bytes), (1, 1 << 30));
        }
        _ => panic!("memory recovery reallocates"),
    }
    match &recovery_procedure(FailureType::ServiceCrash).unwrap()[0] {
        RecoveryStep::RestartComponent(name) => assert_eq!(name, "service"),
        _ => panic!("crash recovery restarts"),
    }
    assert!(recovery_procedure(FailureType::KernelPanic).is_none());
}

#[test]
fn healing_attempts_are_recorded() {
    let mut h = AutonomousHealer::new();
    assert_eq!(h.attempt_healing(FailureType::CPUOverload, 10, 15, &mut None), Ok(()));
    assert_eq!(h.attempt_healing(FailureType::NetworkFailure, 10, 15, &mut None), Err(HealingError::NoProcedure));
}

#[test]
fn maintenance_is_scheduled_ahead() {
    let mut m = PredictiveMaintenance::new();
    assert_eq!(m.schedule_maintenance("disk", None), Err(MaintenanceError::NoPrediction));
    let unknown = FailureForecast { predicted_time: None, priority: 1 };
    assert_eq!(m.schedule_maintenance("disk", Some(unknown)), Err(MaintenanceError::NoPredictedTime));
    let f = FailureForecast { predicted_time: Some(1000), priority: 60 };
    assert_eq!(m.schedule_maintenance("disk", Some(f)), Ok(()));
    let g = FailureForecast { predicted_time: Some(500), priority: 90 };
    assert_eq!(m.schedule_maintenance("cpu", Some(g)), Ok(()));
    let next = m.get_next_maintenance(0).unwrap();
    assert_eq!(next.component, "cpu");
    assert_eq!(next.scheduled_time, 450);
    assert_eq!(next.maintenance_type, MaintenanceType::Predictive);
    assert_eq!(next.estimated_duration, 300_000_000_000);
    assert_eq!(m.get_next_maintenance(450).unwrap().component, "disk");
    assert!(m.get_next_maintenance(900).is_none());
    assert_eq!(m.execute_maintenance("cpu", 5, 8), Ok(MaintenanceType::Predictive));
    assert_eq!(m.execute_maintenance("cpu", 5, 8), Err(MaintenanceError::NotScheduled));
    let h = m.get_history(Some("cpu"));
    assert_eq!(h.len(), 1);
    assert_eq!((h[0].timestamp, h[0].duration, h[0].success), (5, 3, true));
    assert!(m.get_history(Some("disk")).is_empty());
    assert_eq!(m.get_history(None).len(), 1);
}

#[test]
fn rescheduling_replaces_the_window() {
    let mut m = PredictiveMaintenance::new();
    m.schedule_maintenance("disk", Some(FailureForecast { predicted_time: Some(1000), priority: 1 })).unwrap();
    m.schedule_maintenance("disk", Some(FailureForecast { predicted_time: Some(2000), priority: 2 })).unwrap();
    let w = m.get_next_maintenance(0).unwrap();
    assert_eq!((w.scheduled_time, w.priority), (1800, 2));
    m.execute_maintenance("disk", 0, 0).unwrap();
    assert!(m.get_next_maintenance(0).is_none());
    let mut slot: Option<PredictiveMaintenance> = None;
    init_maintenance(&mut slot);
    assert!(slot.unwrap().get_next_maintenance(0).is_none());
}

#[test]
fn locality_of_accesses() {
    let few: Vec<MemoryAccess> = (0..5).map(|i| access(i, 0, 0, 1)).collect();
    assert_eq!(detect_locality(&few), LocalityPattern::Random);
    let recent: Vec<MemoryAccess> = (0..10).map(|i| access(i * 10, i * 0x100000, 0, 1)).collect();
    assert_eq!(detect_locality(&recent), LocalityPattern::Temporal);
    let near: Vec<MemoryAccess> = (0..10).map(|i| access(i * 1_000_000_000, 0x1000 + i * 4096, 0, 1)).collect();
    assert_eq!(detect_locality(&near), LocalityPattern::Spatial);
    let far: Vec<MemoryAccess> = (0..10).map(|i| access(i * 1_000_000_000, i * 0x100000, 0, 1)).collect();
    assert_eq!(detect_locality(&far), LocalityPattern::Random);
}

#[test]
fn next_access_and_working_set() {
    let seq = vec![access(0, 0x1000, 1, 1), access(1, 0x2000, 2, 1), access(2, 0x3000, 1, 1)];
    assert_eq!(predict_next_access(&seq), Some(0x4000));
    let jump = vec![access(0, 0x1000, 1, 1), access(1, 0x5000, 2, 1), access(2, 0x6000, 1, 1)];
    assert_eq!(predict_next_access(&jump), Some(0x6000));
    assert_eq!(predict_next_access(&seq[..1].to_vec()), None);
    let down = vec![access(0, 0x5000, 1, 1), access(1, 0x4000, 2, 1), access(2, 0x3000, 1, 1)];
    assert_eq!(predict_next_access(&down), Some(0x2000));
    let bottom = vec![access(0, 0x2000, 1, 1), access(1, 0x1000, 2, 1), access(2, 0x0, 1, 1)];
    assert_eq!(predict_next_access(&bottom), Some(0x0));
    assert_eq!(working_set_size(&seq), 2 * 4096);
    assert_eq!(working_set_size(&vec![]), 0);
}

#[test]
fn analyzer_tracks_pages() {
    let mut a = MemoryPatternAnalyzer::new();
    a.record_access(access(5, 0x1000, 0xA000, 1));
    a.record_access(access(9, 0x1000, 0xA000, 2));
    a.record_access(access(7, 0x2000, 0xB000, 1));
    assert!(a.is_hot_page(0xA000));
    assert!(!a.is_hot_page(0xC000));
    assert_eq!(a.get_last_access_time(0xA000), Some(9));
    assert_eq!(a.get_last_access_time(0xC000), None);
    assert_eq!(a.get_access_count(0xA000), 2);
    assert_eq!(a.history(1).len(), 2);
    assert_eq!(a.history(3).len(), 0);
}

#[test]
fn coldest_hot_pages_are_dropped() {
    let mut a = MemoryPatternAnalyzer::new();
    for p in 0..1001u64 {
        a.record_access(access(1000 - p, 0, p, 1));
    }
    assert!(a.is_hot_page(0));
    assert!(a.is_hot_page(900));
    assert!(!a.is_hot_page(901));
    assert!(!a.is_hot_page(1000));
}

#[test]
fn eviction_policies() {
    let mut a = MemoryPatternAnalyzer::new();
    a.record_access(access(5, 0, 0xA000, 1));
    a.record_access(access(3, 0, 0xB000, 1));
    a.record_access(access(4, 0, 0xB000, 1));
    let mut c = AICacheManager::new(a);
    assert_eq!(c.cache_policy, CachePolicy::Adaptive);
    assert_eq!(c.decide_eviction(&vec![0xA000, 0xC000]), Some(0xC000));
    assert_eq!(c.decide_eviction(&vec![0xA000, 0xB000]), Some(0xA000));
    assert_eq!(c.decide_eviction(&vec![]), None);
    c.cache_policy = CachePolicy::LRU;
    assert_eq!(c.decide_eviction(&vec![0xA000, 0xB000]), Some(0xB000));
    assert_eq!(c.decide_eviction(&vec![0xA000, 0xC000, 0xB000]), Some(0xC000));
    c.cache_policy = CachePolicy::LFU;
    assert_eq!(c.decide_eviction(&vec![0xB000, 0xA000]), Some(0xA000));
}

#[test]
fn prefetch_queue_by_priority() {
    let mut c = AICacheManager::new(MemoryPatternAnalyzer::new());
    c.request_prefetch(1, 5, Some(0x1000), 0);
    c.request_prefetch(2, 9, Some(0x2000), 0);
    c.request_prefetch(3, 5, None, 0);
    c.request_prefetch(4, 1, Some(0x4000), 7);
    assert_eq!(c.get_prefetch_request().unwrap().agent_id, 2);
    assert_eq!(c.get_prefetch_request().unwrap().agent_id, 1);
    let last = c.get_prefetch_request().unwrap();
    assert_eq!((last.agent_id, last.predicted_access_time), (4, 100_000_007));
    assert!(c.get_prefetch_request().is_none());
}

#[test]
fn swap_durations() {
    let mut s = SwapPredictor::new();
    assert_eq!(s.typical_swap_duration(1), 10_000_000_000);
    let ev = |agent: u64, after: Option<u64>| SwapEvent { timestamp: 0, frame: 0, agent_id: agent, swap_out: true, access_after_swap: after };
    assert!(!s.record_swap(ev(1, Some(100))));
    s.record_swap(ev(1, None));
    s.record_swap(ev(1, Some(301)));
    s.record_swap(ev(2, Some(5)));
    assert_eq!(s.typical_swap_duration(1), 200);
    assert_eq!(s.typical_swap_duration(2), 5);
}

#[test]
fn swaps_are_listed_per_agent() {
    let mut s = SwapPredictor::new();
    let ev = |agent: u64, t: u64| SwapEvent { timestamp: t, frame: t, agent_id: agent, swap_out: true, access_after_swap: None };
    s.record_swap(ev(1, 10));
    s.record_swap(ev(2, 20));
    s.record_swap(ev(1, 30));
    let mine = s.events_of(1);
    assert_eq!(mine.len(), 2);
    assert_eq!((mine[0].timestamp, mine[1].timestamp), (10, 30));
    assert!(s.events_of(3).is_empty());
}
