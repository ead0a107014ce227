use aios_kernel::events::KernelEventSystem;
use aios_kernel::fabric::{MemoryFabricError, MemoryFabricManager, MemoryRegionType, MemoryTag, SHARED_BASE};
use aios_kernel::serialize::{
    deserialize_message, deserialize_string, deserialize_u32, deserialize_u64, serialize_message, serialize_string,
    serialize_u32, serialize_u64, SimpleMessage,
};
use aios_kernel::text::{str_contains, str_equals, str_less};

#[test]
fn regions_are_created_apart() {
    let mut f = MemoryFabricManager::new();
    assert_eq!(f.create_region(1, MemoryRegionType::Ephemeral, 0x1000, &mut None, 0), Ok(1));
    assert_eq!(f.create_region(2, MemoryRegionType::Persistent, 0x1000, &mut None, 0), Ok(2));
    assert_eq!(f.create_region(3, MemoryRegionType::Shared, 0x200_0000, &mut None, 0), Ok(3));
    assert_eq!(f.create_region(4, MemoryRegionType::Shared, 0x1000, &mut None, 0), Err(MemoryFabricError::OutOfMemory));
}

#[test]
fn shared_pages_version_and_grow() {
    let mut f = MemoryFabricManager::new();
    let (page, addrs) = f.create_shared_page(vec![1, 2], 0x9000, &mut None, 0);
    assert_eq!(page, 1);
    assert_eq!(addrs, vec![(1, SHARED_BASE + 4096 + 0x100_0000), (2, SHARED_BASE + 4096 + 2 * 0x100_0000)]);
    assert_eq!(f.get_shared_page_addr(1, 2), Some(SHARED_BASE + 4096 + 2 * 0x100_0000));
    assert_eq!(f.get_shared_page_addr(1, 3), None);
    assert_eq!(f.get_version(1), Some(1));
    assert_eq!(f.increment_version(1), Ok(2));
    assert_eq!(f.increment_version(5), Err(MemoryFabricError::InvalidRegion));
    assert_eq!(f.add_agent_to_shared_page(1, 3), Ok(Some(SHARED_BASE + 4096 + 3 * 0x100_0000)));
    assert_eq!(f.add_agent_to_shared_page(1, 3), Ok(None));
    assert_eq!(f.add_agent_to_shared_page(8, 3), Err(MemoryFabricError::InvalidRegion));
}

#[test]
fn tags_by_region_and_agent() {
    let mut f = MemoryFabricManager::new();
    f.tag_region(5, MemoryTag { agent_id: 1, tag: vec![1], permissions: 3 }).unwrap();
    f.tag_region(2, MemoryTag { agent_id: 2, tag: vec![2], permissions: 1 }).unwrap();
    f.tag_region(5, MemoryTag { agent_id: 2, tag: vec![3], permissions: 1 }).unwrap();
    let tags = f.get_tags(5).unwrap();
    assert_eq!(tags.len(), 2);
    assert_eq!(tags[0].tag, vec![1]);
    assert_eq!(tags[1].tag, vec![3]);
    assert!(f.get_tags(9).is_none());
    let by2 = f.get_tags_by_agent(2);
    assert_eq!(by2.len(), 2);
    assert_eq!(by2[0].0, 2);
}

#[test]
fn leases_expire_or_renew() {
    let mut f = MemoryFabricManager::new();
    assert_eq!(f.create_lease(1, 1, 100, false), Ok(1));
    assert_eq!(f.create_lease(1, 2, 100, true), Ok(2));
    f.expire_leases(50);
    f.check_leases(150);
    f.cleanup_agent_regions(1, 150);
    assert_eq!(f.create_lease(2, 3, 10, false), Ok(3));
}

#[test]
fn ephemeral_regions_go_with_their_agent() {
    let mut f = MemoryFabricManager::new();
    f.create_region(1, MemoryRegionType::Ephemeral, 0x1000, &mut None, 0).unwrap();
    f.create_region(1, MemoryRegionType::Persistent, 0x1000, &mut None, 0).unwrap();
    f.cleanup_agent_regions(1, 0);
    assert_eq!(f.create_region(1, MemoryRegionType::Ephemeral, 0x1000, &mut None, 0), Ok(3));
}

#[test]
fn integers_round_trip() {
    let mut buf = [0u8; 10];
    assert_eq!(serialize_u64(0x0102_0304_0506_0708, &mut buf), 8);
    assert_eq!(&buf[0..8], &[8, 7, 6, 5, 4, 3, 2, 1]);
    assert_eq!(deserialize_u64(&buf), Some(0x0102_0304_0506_0708));
    assert_eq!(serialize_u32(0xA0B0C0D0, &mut buf), 4);
    assert_eq!(deserialize_u32(&buf), Some(0xA0B0C0D0));
    let mut small = [9u8; 3];
    assert_eq!(serialize_u64(1, &mut small), 0);
    assert_eq!(small, [9, 9, 9]);
    assert_eq!(deserialize_u64(&small), None);
    assert_eq!(deserialize_u32(&small), None);
}

#[test]
fn messages_round_trip() {
    let msg = SimpleMessage { message_type: 3, sender_id: 10, receiver_id: 20, data_len: 3, data: vec![7, 8, 9] };
    let mut buf = [0u8; 64];
    assert_eq!(serialize_message(&msg, &mut buf), Some(27));
    let (back, used) = deserialize_message(&buf).unwrap();
    assert_eq!(used, 27);
    assert_eq!(back.message_type, 3);
    assert_eq!(back.sender_id, 10);
    assert_eq!(back.receiver_id, 20);
    assert_eq!(back.data, vec![7, 8, 9]);
    let mut short = [0u8; 10];
    assert_eq!(serialize_message(&msg, &mut short), None);
    assert!(deserialize_message(&buf[..20]).is_none());
}

#[test]
fn strings_round_trip() {
    let mut buf = [0u8; 16];
    assert_eq!(serialize_string("héllo", &mut buf), Some(10));
    let (s, used) = deserialize_string(&buf).unwrap();
    assert_eq!(s, "héllo");
    assert_eq!(used, 10);
    let bad = [2u8, 0, 0, 0, 0xFF, 0xFE];
    assert!(deserialize_string(&bad).is_none());
    let mut tiny = [0u8; 4];
    assert_eq!(serialize_string("ab", &mut tiny), None);
}

#[test]
fn text_matching() {
    assert!(str_equals("cpu", &['c', 'p', 'u']));
    assert!(!str_equals("cpu0", &['c', 'p', 'u']));
    assert!(str_contains("network-card", &['w', 'o', 'r', 'k']));
    assert!(!str_contains("net", &['n', 'e', 't', 's']));
    assert!(str_contains("x", &[]));
    assert!(str_less("abc", "abd"));
    assert!(str_less("ab", "abc"));
    assert!(!str_less("abc", "abc"));
    assert!(!str_less("b", "abc"));
}

#[test]
fn room_for_a_region_is_checked() {
    let mut f = MemoryFabricManager::new();
    assert!(f.can_create(0x10_0000));
    assert!(!f.can_create(u64::MAX));
    f.create_region(1, MemoryRegionType::Ephemeral, 0x1000, &mut None, 0).unwrap();
    assert!(f.can_create(0x10_0000));
}

#[test]
fn created_regions_and_pages_are_announced() {
    let mut events = Some(KernelEventSystem::new());
    let mut f = MemoryFabricManager::new();
    assert_eq!(f.create_region(1, MemoryRegionType::Ephemeral, 0x1000, &mut events, 5), Ok(1));
    assert_eq!(events.as_ref().unwrap().bus.queue_len(), 1);
    f.create_region(2, MemoryRegionType::Shared, 0x200_0000, &mut events, 6).unwrap();
    assert_eq!(f.create_region(3, MemoryRegionType::Shared, 0x1000, &mut events, 7), Err(MemoryFabricError::OutOfMemory));
    assert_eq!(events.as_ref().unwrap().bus.queue_len(), 2);
    f.create_shared_page(vec![1], 0x9000, &mut events, 8);
    assert_eq!(events.as_ref().unwrap().bus.queue_len(), 3);
}
