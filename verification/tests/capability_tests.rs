use aios_kernel::capability::{Capabilities, CapabilityToken, ACCESS_FS, ACCESS_NET, ADMIN, SPAWN_AGENT};
use aios_kernel::capability_system::{has_capability, validate_capability, CapabilitySystem};
use aios_kernel::quota::{resource_kind, QuotaManager, ResourceKind};
use aios_kernel::resource_group::ResourceGroup;
use aios_kernel::revocation::RevocationManager;
use aios_kernel::events::KernelEventSystem;

fn token(id: u64, caps: u64, expires_at: u64) -> CapabilityToken {
    CapabilityToken { token_id: id, agent_id: 7, capabilities: caps, expires_at, signature: [0u8; 64] }
}

#[test]
fn capability_bits_round_trip() {
    let c = Capabilities::from_bits(ACCESS_FS | ADMIN);
    assert_eq!(c.bits(), 8 | 1024);
}

#[test]
fn token_has_only_its_bits() {
    let t = token(1, SPAWN_AGENT | ACCESS_NET, 100);
    assert!(t.has_capability(Capabilities::from_bits(SPAWN_AGENT)));
    assert!(t.has_capability(Capabilities::from_bits(ACCESS_NET)));
    assert!(!t.has_capability(Capabilities::from_bits(ADMIN)));
}

#[test]
fn token_expiry_is_strict() {
    let t = token(1, 0, 100);
    assert!(!t.is_expired(100));
    assert!(t.is_expired(101));
}

#[test]
fn revocation_can_be_undone() {
    let mut r = RevocationManager::new();
    assert!(!r.is_revoked(5));
    r.revoke(5);
    assert!(r.is_revoked(5));
    r.unrevoke(5);
    assert!(!r.is_revoked(5));
}

#[test]
fn resource_names_parse() {
    assert_eq!(resource_kind("memory"), Some(ResourceKind::Memory));
    assert_eq!(resource_kind("cpu"), Some(ResourceKind::Cpu));
    assert_eq!(resource_kind("network"), Some(ResourceKind::Network));
    assert_eq!(resource_kind("io"), Some(ResourceKind::Io));
    assert_eq!(resource_kind("fs"), Some(ResourceKind::Fs));
    assert_eq!(resource_kind("gpu"), None);
}

#[test]
fn quota_defaults_apply_to_new_agents() {
    let mut q = QuotaManager::new();
    assert!(q.check(1, "cpu", 100, &mut None));
    assert!(!q.check(1, "cpu", 101, &mut None));
    assert_eq!(q.get_usage(1, "memory"), Some((0, 1073741824)));
    assert_eq!(q.get_statistics(1), Some((2, 0, 0, 1)));
}

#[test]
fn quota_allocation_and_release() {
    let mut q = QuotaManager::new();
    assert!(q.allocate(3, "io", 600, &mut None));
    assert!(!q.allocate(3, "io", 600, &mut None));
    assert_eq!(q.get_usage(3, "io"), Some((600, 1000)));
    q.release(3, "io", 700);
    assert_eq!(q.get_usage(3, "io"), Some((0, 1000)));
    assert_eq!(q.get_statistics(3), Some((2, 1, 1, 1)));
}

#[test]
fn quota_unknown_resource_is_refused() {
    let mut q = QuotaManager::new();
    assert!(!q.allocate(3, "gpu", 1, &mut None));
    assert!(!q.set_limit(3, "gpu", 5));
    assert_eq!(q.get_usage(3, "gpu"), None);
    assert_eq!(q.get_usage(9, "cpu"), None);
}

#[test]
fn quota_limit_can_be_changed() {
    let mut q = QuotaManager::new();
    assert!(q.set_limit(4, "network", 10));
    assert!(q.check(4, "network", 10, &mut None));
    assert!(!q.check(4, "network", 11, &mut None));
    assert_eq!(q.get_statistics(4), Some((2, 0, 0, 1)));
}

#[test]
fn resource_group_defaults() {
    let g = ResourceGroup::new(9);
    assert_eq!(g.agent_id, 9);
    assert_eq!(g.cpu_quota, 100);
    assert_eq!(g.memory_quota, 1073741824);
    assert_eq!(g.io_quota, 1000);
    assert_eq!(g.network_quota, 104857600);
    assert_eq!(g.fs_quota, 10737418240);
    assert!(g.children.is_empty());
    let d = g.duplicate();
    assert_eq!(d.memory_quota, g.memory_quota);
}

#[test]
fn revoked_token_no_longer_validates() {
    let mut s = CapabilitySystem::new();
    let t = token(11, ACCESS_FS, 1000);
    assert!(s.validate(&t));
    assert!(validate_capability(Some(&s), &t));
    s.revoke(11, Some(7), &mut None);
    assert!(s.is_revoked(11));
    assert!(!s.validate(&t));
    assert!(!validate_capability(Some(&s), &t));
    assert!(!validate_capability(None, &t));
}

#[test]
fn capability_check_needs_system_token_and_bit() {
    let s = CapabilitySystem::new();
    let t = token(12, ACCESS_FS, 1000);
    assert!(has_capability(Some(&s), Some(&t), Capabilities::from_bits(ACCESS_FS)));
    assert!(!has_capability(Some(&s), Some(&t), Capabilities::from_bits(ACCESS_NET)));
    assert!(!has_capability(None, Some(&t), Capabilities::from_bits(ACCESS_FS)));
    assert!(!has_capability(Some(&s), None, Capabilities::from_bits(ACCESS_FS)));
}

#[test]
fn capability_system_quota_check() {
    let mut s = CapabilitySystem::new();
    assert!(s.check_quota(2, "memory", 1024, &mut None));
    assert!(!s.check_quota(2, "memory", 1073741825, &mut None));
    assert!(s.get_resource_group(2).is_none());
}

#[test]
fn refusals_and_revocations_are_published() {
    let mut events = Some(KernelEventSystem::new());
    let mut q = QuotaManager::new();
    assert!(q.check(1, "cpu", 100, &mut events));
    assert_eq!(events.as_ref().unwrap().bus.queue_len(), 0);
    assert!(!q.check(1, "cpu", 101, &mut events));
    assert_eq!(events.as_ref().unwrap().bus.queue_len(), 1);
    assert!(!q.allocate(1, "gpu", 1, &mut events));
    assert_eq!(events.as_ref().unwrap().bus.queue_len(), 2);
    let mut s = CapabilitySystem::new();
    s.revoke(3, Some(1), &mut events);
    assert_eq!(events.as_ref().unwrap().bus.queue_len(), 3);
    assert!(s.is_revoked(3));
}
