use aios_kernel::capability::{CapabilityToken, ADMIN, SUPERVISOR};
use aios_kernel::capability_system::CapabilitySystem;
use aios_kernel::scheduler::{
    AgentScheduler, LifecycleHook, LifecycleHookType, SemanticHint, SemanticHintType, DEFAULT_TIME_SLICE,
};

fn token(id: u64, caps: u64) -> CapabilityToken {
    CapabilityToken { token_id: id, agent_id: 1, capabilities: caps, expires_at: u64::MAX, signature: [0u8; 64] }
}

#[test]
fn new_agents_start_fresh() {
    let mut s = AgentScheduler::new();
    s.add_agent(1, 1024, 3);
    let st = s.get_stats(1).unwrap();
    assert_eq!(st.vruntime, 0);
    assert_eq!(st.time_used, 0);
    assert_eq!(st.time_slice, DEFAULT_TIME_SLICE);
    assert_eq!(st.priority, 3);
    assert!(s.get_stats(2).is_none());
}

#[test]
fn least_vruntime_runs_first() {
    let mut s = AgentScheduler::new();
    s.add_agent(1, 1024, 0);
    s.add_agent(2, 1024, 0);
    assert_eq!(s.next(5, None), Some(1));
    s.update_runtime(1, 1000);
    assert_eq!(s.get_stats(1).unwrap().vruntime, 1000);
    assert_eq!(s.next(6, None), Some(2));
}

#[test]
fn vruntime_scales_with_weight() {
    let mut s = AgentScheduler::new();
    s.add_agent(1, 2048, 0);
    s.update_runtime(1, 1000);
    assert_eq!(s.get_stats(1).unwrap().vruntime, 500);
    assert_eq!(s.get_stats(1).unwrap().time_used, 1000);
}

#[test]
fn used_slice_resets() {
    let mut s = AgentScheduler::new();
    s.add_agent(1, 1024, 0);
    s.set_time_slice(1, 100);
    s.update_runtime(1, 60);
    assert_eq!(s.get_stats(1).unwrap().time_used, 60);
    s.update_runtime(1, 40);
    assert_eq!(s.get_stats(1).unwrap().time_used, 0);
}

#[test]
fn due_deadline_wins() {
    let mut s = AgentScheduler::new();
    s.add_agent(1, 1024, 0);
    s.add_agent(2, 1024, 0);
    s.update_runtime(2, 5000);
    s.set_deadline(2, 10);
    assert_eq!(s.next(9, None), Some(1));
    assert_eq!(s.next(10, None), Some(2));
}

#[test]
fn predicted_agent_is_taken() {
    let mut s = AgentScheduler::new();
    s.add_agent(1, 1024, 0);
    assert_eq!(s.next(3, Some(9)), Some(9));
}

#[test]
fn empty_scheduler_picks_nothing() {
    let mut s = AgentScheduler::new();
    assert_eq!(s.next(3, None), None);
    assert_eq!(s.next_from_queue(&vec![4, 5], 3, None), None);
}

#[test]
fn restore_undoes_inherit() {
    let mut s = AgentScheduler::new();
    s.add_agent(1, 1024, 1);
    s.add_agent(2, 1024, 5);
    s.inherit_priority(1, 2);
    assert_eq!(s.get_stats(1).unwrap().priority, 5);
    s.restore_priority(1);
    assert_eq!(s.get_stats(1).unwrap().priority, 1);
}

#[test]
fn lower_priority_is_not_inherited() {
    let mut s = AgentScheduler::new();
    s.add_agent(1, 1024, 7);
    s.add_agent(2, 1024, 5);
    s.inherit_priority(1, 2);
    assert_eq!(s.get_stats(1).unwrap().priority, 7);
}

#[test]
fn preemption_rules() {
    let mut s = AgentScheduler::new();
    s.add_agent(1, 1024, 1);
    s.add_agent(2, 1024, 5);
    assert!(s.should_preempt(1, 2));
    assert!(!s.should_preempt(2, 1));
    s.set_deadline(1, 50);
    assert!(s.should_preempt(2, 1));
    assert!(!s.should_preempt(1, 3));
}

#[test]
fn capabilities_boost_priority() {
    let mut s = AgentScheduler::new();
    s.set_semantic_hint(4, SemanticHint { agent_id: 4, hint_type: SemanticHintType::HighPriority, priority_boost: 2 });
    let sys = CapabilitySystem::new();
    let admin = token(1, ADMIN);
    let both = token(2, ADMIN | SUPERVISOR);
    assert_eq!(s.adjust_priority_with_capability(4, 3, None, Some(&sys)), 5);
    assert_eq!(s.adjust_priority_with_capability(4, 3, Some(&admin), Some(&sys)), 15);
    assert_eq!(s.adjust_priority_with_capability(4, 3, Some(&both), Some(&sys)), 20);
    assert_eq!(s.adjust_priority_with_capability(5, 3, Some(&both), None), 3);
}

#[test]
fn lifecycle_hooks_are_kept_per_type() {
    let mut s = AgentScheduler::new();
    s.add_agent(1, 1024, 0);
    s.register_lifecycle_hook(1, LifecycleHook { hook_type: LifecycleHookType::OnSpawn, callback: 10 });
    s.register_lifecycle_hook(1, LifecycleHook { hook_type: LifecycleHookType::OnKill, callback: 11 });
    s.register_lifecycle_hook(1, LifecycleHook { hook_type: LifecycleHookType::OnSpawn, callback: 12 });
    assert_eq!(s.lifecycle_callbacks(1, LifecycleHookType::OnSpawn), vec![10, 12]);
    assert_eq!(s.lifecycle_callbacks(1, LifecycleHookType::OnKill), vec![11]);
    assert!(s.lifecycle_callbacks(2, LifecycleHookType::OnSpawn).is_empty());
}

#[test]
fn removed_agent_is_gone() {
    let mut s = AgentScheduler::new();
    s.add_agent(1, 1024, 0);
    s.add_agent(2, 1024, 0);
    s.remove_agent(1);
    assert!(s.get_stats(1).is_none());
    assert_eq!(s.next(1, None), Some(2));
}
