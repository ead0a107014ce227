use aios_kernel::capability::CapabilityToken;
use aios_kernel::syscall::{
    display_mode, validate_capability, DisplayMode, PixelFormat, PixelSize, ServiceReply, ServiceRequest, Syscall,
    SyscallDispatcher, SyscallError, SyscallStep,
};

fn signed(caps: u64, expires_at: u64) -> CapabilityToken {
    let mut signature = [0u8; 64];
    signature[63] = 1;
    CapabilityToken { token_id: 1, agent_id: 2, capabilities: caps, expires_at, signature }
}

fn done(step: SyscallStep) -> (bool, u64, u32) {
    match step {
        SyscallStep::Done(r) => (r.success, r.value, r.error_code),
        SyscallStep::Service(_) => panic!("expected a finished call"),
    }
}

#[test]
fn syscall_numbers() {
    assert_eq!(Syscall::from_number(1), Some(Syscall::AgentSpawn));
    assert_eq!(Syscall::from_number(13), Some(Syscall::GetAsyncResult));
    assert_eq!(Syscall::from_number(20), Some(Syscall::InputGetDevices));
    assert_eq!(Syscall::from_number(0), None);
    assert_eq!(Syscall::from_number(21), None);
}

#[test]
fn error_codes() {
    assert_eq!(SyscallError::Success.code(), 0);
    assert_eq!(SyscallError::InvalidCapability.code(), 1);
    assert_eq!(SyscallError::PermissionDenied.code(), 3);
    assert_eq!(SyscallError::NotReady.code(), 19);
}

#[test]
fn unsigned_or_expired_tokens_are_refused() {
    let mut unsigned = signed(u64::MAX, 100);
    unsigned.signature = [0u8; 64];
    assert!(!validate_capability(&unsigned, 10));
    assert!(validate_capability(&signed(0, 100), 100));
    assert!(!validate_capability(&signed(0, 100), 101));
    let mut d = SyscallDispatcher::new();
    assert_eq!(done(d.handle_syscall(4, &[], &unsigned, 10)), (false, 0, 1));
}

#[test]
fn missing_capability_bit_is_denied() {
    let mut d = SyscallDispatcher::new();
    assert_eq!(done(d.handle_syscall(4, &[9], &signed(0, 100), 10)), (false, 0, 3));
    assert_eq!(done(d.handle_syscall(4, &[9], &signed(1 << 3, 100), 10)), (true, 0, 0));
    assert_eq!(done(d.handle_syscall(99, &[], &signed(u64::MAX, 100), 10)), (false, 0, 2));
}

#[test]
fn spawn_needs_a_spec() {
    let mut d = SyscallDispatcher::new();
    assert_eq!(done(d.handle_syscall(1, &[0], &signed(1, 100), 10)), (false, 0, 9));
    match d.handle_syscall(1, &[0x1000], &signed(1, 100), 10) {
        SyscallStep::Done(r) => {
            assert!(r.success);
            assert_eq!(r.async_handle, 1);
        }
        _ => panic!("spawn finishes at once"),
    }
}

#[test]
fn ipc_send_is_bounded_and_served() {
    let mut d = SyscallDispatcher::new();
    let t = signed(0, 100);
    assert_eq!(done(d.handle_syscall(5, &[1, 2, 3, 65537, 0, 0], &t, 10)), (false, 0, 4));
    match d.handle_syscall(5, &[1, 2, 0x5000, 16, 0, 0], &t, 10) {
        SyscallStep::Service(ServiceRequest::IpcSend { from, to, data_len, .. }) => {
            assert_eq!((from, to, data_len), (1, 2, 16));
        }
        _ => panic!("send goes to the IPC service"),
    }
    let req = ServiceRequest::IpcSend { from: 1, to: 2, data_ptr: 0x5000, data_len: 16, meta_ptr: 0, meta_len: 0 };
    let r = d.complete(req, ServiceReply::Value(Some(77)), vec![]);
    assert!(r.success);
    assert_eq!(r.value, 77);
}

#[test]
fn memory_calls() {
    let mut d = SyscallDispatcher::new();
    let t = signed(1 << 4, 100);
    assert_eq!(done(d.handle_syscall(7, &[1, 1073741825], &t, 10)), (false, 0, 5));
    assert_eq!(done(d.handle_syscall(7, &[1, 4096], &t, 10)), (false, 0, 14));
    assert_eq!(done(d.handle_syscall(8, &[1], &t, 10)), (true, 0, 0));
    assert_eq!(done(d.handle_syscall(6, &[], &t, 10)), (false, 0, 13));
}

#[test]
fn pqc_operations_get_handles() {
    let mut d = SyscallDispatcher::new();
    let t = signed(0, 100);
    assert_eq!(done(d.handle_syscall(12, &[1, 0x7000, 65537], &t, 10)), (false, 0, 4));
    let step = d.handle_syscall(12, &[1, 0x7000, 8], &t, 10);
    let req = match step {
        SyscallStep::Service(r) => r,
        _ => panic!("input must be copied in"),
    };
    let r = d.complete(req, ServiceReply::Unavailable, vec![1, 2, 3]);
    assert!(r.success);
    assert_eq!(r.async_handle, 1);
    assert_eq!(d.submit_pqc_operation(2, vec![4]), 2);
}

#[test]
fn async_results_need_handle_and_buffer() {
    let mut d = SyscallDispatcher::new();
    let t = signed(0, 100);
    assert_eq!(done(d.handle_syscall(13, &[0, 1, 1], &t, 10)), (false, 0, 18));
    assert_eq!(done(d.handle_syscall(13, &[5, 0, 1], &t, 10)), (false, 0, 15));
    assert_eq!(done(d.get_async_result(5, 0x1000, 8)), (false, 0, 19));
}

#[test]
fn framebuffer_and_display_replies() {
    let mut d = SyscallDispatcher::new();
    let t = signed(1 << 6, 100);
    match d.handle_syscall(14, &[640, 480, 0], &t, 10) {
        SyscallStep::Service(ServiceRequest::FramebufferAlloc { width, height, format }) => {
            assert_eq!((width, height, format), (640, 480, PixelFormat::ARGB32));
        }
        _ => panic!("allocation goes to the display service"),
    }
    let get = ServiceRequest::FramebufferGet { fb_id: 3 };
    let r = d.complete(get, ServiceReply::Size(Some(PixelSize { width: 640, height: 480 })), vec![]);
    assert_eq!(r.value, 640 | (480u64 << 32));
    assert_eq!(d.complete(get, ServiceReply::Unavailable, vec![]).error_code, 8);
    assert_eq!(d.complete(get, ServiceReply::Size(None), vec![]).error_code, 18);
    let free = ServiceRequest::FramebufferFree { fb_id: 3 };
    assert!(d.complete(free, ServiceReply::Status(true), vec![]).success);
    assert_eq!(done(d.handle_syscall(19, &[], &signed(0, 100), 10)), (false, 0, 3));
    match d.handle_syscall(19, &[], &signed(1 << 7, 100), 10) {
        SyscallStep::Service(ServiceRequest::InputRead { max_events }) => assert_eq!(max_events, 10),
        _ => panic!("input goes to the input service"),
    }
    assert_eq!(display_mode(800, 600, None), DisplayMode { width: 800, height: 600, refresh_rate: 60 });
    assert_eq!(display_mode(800, 600, Some(75)).refresh_rate, 75);
}

#[test]
fn no_result_to_take_before_one_is_stored() {
    let mut d = SyscallDispatcher::new();
    assert!(d.take_result(1).is_none());
    assert!(d.take_result(0).is_none());
}
