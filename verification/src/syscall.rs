//! The system-call layer: token validation, dispatch by call number, the
//! capability bit each call needs, argument checks, and the results handed
//! back to user space.
//!
//! Calls served by other subsystems (IPC, graphics, input, user memory) are
//! handed to the caller as a [`ServiceRequest`]; the caller performs it and
//! passes the reply to [`SyscallDispatcher::complete`].

use vstd::prelude::*;
use std::collections::BTreeMap;
use crate::capability::CapabilityToken;

verus! {

broadcast use vstd::std_specs::btree::group_btree_axioms;

/// Largest IPC message, in bytes.
pub const MAX_IPC_SIZE: u64 = 65536;

/// Largest memory allocation for one agent, in bytes.
pub const MAX_AGENT_MEMORY: u64 = 1073741824;

/// Largest input of a post-quantum crypto operation, in bytes.
pub const MAX_PQC_INPUT: u64 = 65536;

/// Input events read when the caller names no number.
pub const DEFAULT_INPUT_EVENTS: u64 = 10;

/// Refresh rate used when the display reports none.
pub const DEFAULT_REFRESH_RATE: u32 = 60;

/// System call numbers.
#[derive(Clone, Copy, PartialEq, Eq, Structural, Debug)]
pub enum Syscall {
    AgentSpawn,
    AgentSupervisorRegister,
    AgentRegister,
    AgentKill,
    IPCSend,
    IPCRecv,
    AgentMemAlloc,
    AgentMemFree,
    FrameAlloc,
    PageMap,
    AgentPoolAlloc,
    PQCOperation,
    GetAsyncResult,
    FramebufferAlloc,
    FramebufferFree,
    FramebufferGet,
    DisplayGet,
    DisplaySetMode,
    InputRead,
    InputGetDevices,
}

/// The call with number `n`.
pub open spec fn syscall_of(n: u64) -> Option<Syscall> {
    if n == 1 {
        Some(Syscall::AgentSpawn)
    } else if n == 2 {
        Some(Syscall::AgentSupervisorRegister)
    } else if n == 3 {
        Some(Syscall::AgentRegister)
    } else if n == 4 {
        Some(Syscall::AgentKill)
    } else if n == 5 {
        Some(Syscall::IPCSend)
    } else if n == 6 {
        Some(Syscall::IPCRecv)
    } else if n == 7 {
        Some(Syscall::AgentMemAlloc)
    } else if n == 8 {
        Some(Syscall::AgentMemFree)
    } else if n == 9 {
        Some(Syscall::FrameAlloc)
    } else if n == 10 {
        Some(Syscall::PageMap)
    } else if n == 11 {
        Some(Syscall::AgentPoolAlloc)
    } else if n == 12 {
        Some(Syscall::PQCOperation)
    } else if n == 13 {
        Some(Syscall::GetAsyncResult)
    } else if n == 14 {
        Some(Syscall::FramebufferAlloc)
    } else if n == 15 {
        Some(Syscall::FramebufferFree)
    } else if n == 16 {
        Some(Syscall::FramebufferGet)
    } else if n == 17 {
        Some(Syscall::DisplayGet)
    } else if n == 18 {
        Some(Syscall::DisplaySetMode)
    } else if n == 19 {
        Some(Syscall::InputRead)
    } else if n == 20 {
        Some(Syscall::InputGetDevices)
    } else {
        None
    }
}

impl Syscall {
    /// The call with number `n`, if there is one.
    pub fn from_number(n: u64) -> (r: Option<Syscall>)
        ensures
            r == syscall_of(n),
    {
        if n == 1 {
            Some(Syscall::AgentSpawn)
        } else if n == 2 {
            Some(Syscall::AgentSupervisorRegister)
        } else if n == 3 {
            Some(Syscall::AgentRegister)
        } else if n == 4 {
            Some(Syscall::AgentKill)
        } else if n == 5 {
            Some(Syscall::IPCSend)
        } else if n == 6 {
            Some(Syscall::IPCRecv)
        } else if n == 7 {
            Some(Syscall::AgentMemAlloc)
        } else if n == 8 {
            Some(Syscall::AgentMemFree)
        } else if n == 9 {
            Some(Syscall::FrameAlloc)
        } else if n == 10 {
            Some(Syscall::PageMap)
        } else if n == 11 {
            Some(Syscall::AgentPoolAlloc)
        } else if n == 12 {
            Some(Syscall::PQCOperation)
        } else if n == 13 {
            Some(Syscall::GetAsyncResult)
        } else if n == 14 {
            Some(Syscall::FramebufferAlloc)
        } else if n == 15 {
            Some(Syscall::FramebufferFree)
        } else if n == 16 {
            Some(Syscall::FramebufferGet)
        } else if n == 17 {
            Some(Syscall::DisplayGet)
        } else if n == 18 {
            Some(Syscall::DisplaySetMode)
        } else if n == 19 {
            Some(Syscall::InputRead)
        } else if n == 20 {
            Some(Syscall::InputGetDevices)
        } else {
            None
        }
    }
}

/// What an agent to be spawned looks like, as user space passes it.
#[derive(Clone, Copy, Debug)]
pub struct AgentSpec {
    pub agent_type: u32,
    pub memory_limit: u64,
    pub cpu_limit: u8,
    pub capabilities: u64,
    pub image_hash: [u8; 32],
    pub manifest_ptr: u64,
    pub manifest_len: u64,
}

/// The result of a system call.
#[derive(Clone, Copy, PartialEq, Eq, Structural, Debug)]
pub struct SyscallResult {
    pub success: bool,
    pub value: u64,
    pub error_code: u32,
    pub async_handle: u64,
    pub data_len: u64,
}

/// Why a system call failed.
#[derive(Clone, Copy, PartialEq, Eq, Structural, Debug)]
pub enum SyscallError {
    Success,
    InvalidCapability,
    InvalidSyscall,
    PermissionDenied,
    MessageTooLarge,
    MemoryLimitExceeded,
    Timeout,
    AgentNotFound,
    ResourceExhausted,
    InvalidSpec,
    AlreadyRegistered,
    InvalidSupervisor,
    BufferTooSmall,
    NoMessage,
    OutOfMemory,
    InvalidPointer,
    InvalidAddress,
    InvalidOperation,
    InvalidHandle,
    NotReady,
}

/// The code of an error as user space sees it.
pub open spec fn code_of(e: SyscallError) -> u32 {
    match e {
        SyscallError::Success => 0,
        SyscallError::InvalidCapability => 1,
        SyscallError::InvalidSyscall => 2,
        SyscallError::PermissionDenied => 3,
        SyscallError::MessageTooLarge => 4,
        SyscallError::MemoryLimitExceeded => 5,
        SyscallError::Timeout => 6,
        SyscallError::AgentNotFound => 7,
        SyscallError::ResourceExhausted => 8,
        SyscallError::InvalidSpec => 9,
        SyscallError::AlreadyRegistered => 10,
        SyscallError::InvalidSupervisor => 11,
        SyscallError::BufferTooSmall => 12,
        SyscallError::NoMessage => 13,
        SyscallError::OutOfMemory => 14,
        SyscallError::InvalidPointer => 15,
        SyscallError::InvalidAddress => 16,
        SyscallError::InvalidOperation => 17,
        SyscallError::InvalidHandle => 18,
        SyscallError::NotReady => 19,
    }
}

impl SyscallError {
    /// The code of this error as user space sees it.
    pub fn code(&self) -> (c: u32)
        ensures
            c == code_of(*self),
    {
        match self {
            SyscallError::Success => 0,
            SyscallError::InvalidCapability => 1,
            SyscallError::InvalidSyscall => 2,
            SyscallError::PermissionDenied => 3,
            SyscallError::MessageTooLarge => 4,
            SyscallError::MemoryLimitExceeded => 5,
            SyscallError::Timeout => 6,
            SyscallError::AgentNotFound => 7,
            SyscallError::ResourceExhausted => 8,
            SyscallError::InvalidSpec => 9,
            SyscallError::AlreadyRegistered => 10,
            SyscallError::InvalidSupervisor => 11,
            SyscallError::BufferTooSmall => 12,
            SyscallError::NoMessage => 13,
            SyscallError::OutOfMemory => 14,
            SyscallError::InvalidPointer => 15,
            SyscallError::InvalidAddress => 16,
            SyscallError::InvalidOperation => 17,
            SyscallError::InvalidHandle => 18,
            SyscallError::NotReady => 19,
        }
    }
}

/// A failed call with error `e`.
pub open spec fn failed(e: SyscallError) -> SyscallResult {
    SyscallResult { success: false, value: 0, error_code: code_of(e), async_handle: 0, data_len: 0 }
}

/// A successful call returning `value`.
pub open spec fn succeeded(value: u64) -> SyscallResult {
    SyscallResult { success: true, value, error_code: 0, async_handle: 0, data_len: 0 }
}

fn fail(e: SyscallError) -> (r: SyscallResult)
    ensures
        r == failed(e),
{
    SyscallResult { success: false, value: 0, error_code: e.code(), async_handle: 0, data_len: 0 }
}

fn succeed(value: u64) -> (r: SyscallResult)
    ensures
        r == succeeded(value),
{
    SyscallResult { success: true, value, error_code: 0, async_handle: 0, data_len: 0 }
}

/// Argument `i`, or `default` when the call passed fewer.
pub open spec fn arg_or(args: Seq<u64>, i: int, default: u64) -> u64 {
    if 0 <= i < args.len() {
        args[i]
    } else {
        default
    }
}

fn arg(args: &[u64], i: usize, default: u64) -> (v: u64)
    ensures
        v == arg_or(args@, i as int, default),
{
    if i < args.len() {
        args[i]
    } else {
        default
    }
}

/// Whether a token is fit for a system call at `now`: not expired, and
/// with a signature that is not all zeros.
pub open spec fn token_valid(t: CapabilityToken, now: u64) -> bool {
    t.expires_at >= now && exists|i: int| 0 <= i < 64 && t.signature@[i] != 0
}

/// Checks a token at `now`: refused when expired or when its signature is
/// all zeros, the mark of a token that was never signed.
pub fn validate_capability(capability: &CapabilityToken, now: u64) -> (r: bool)
    ensures
        r == token_valid(*capability, now),
{
    if capability.expires_at < now {
        return false;
    }
    let mut i: usize = 0;
    while i < 64
        invariant
            i <= 64,
            capability.expires_at >= now,
            forall|k: int| 0 <= k < i ==> capability.signature@[k] == 0,
        decreases 64 - i,
    {
        if capability.signature[i] != 0 {
            assert(capability.signature@[i as int] != 0);
            return true;
        }
        i = i + 1;
    }
    false
}

/// Whether the token's mask has bit `b`.
pub open spec fn has_bit(t: CapabilityToken, b: u64) -> bool {
    t.capabilities & (1u64 << b) != 0
}

/// Pixel formats of a framebuffer.
#[derive(Clone, Copy, PartialEq, Eq, Structural, Debug)]
pub enum PixelFormat {
    ARGB32,
    RGB24,
    RGB16,
    RGB8,
}

/// The pixel format with code `v`; unknown codes mean ARGB32.
pub open spec fn pixel_format_of(v: u32) -> PixelFormat {
    if v == 1 {
        PixelFormat::RGB24
    } else if v == 2 {
        PixelFormat::RGB16
    } else if v == 3 {
        PixelFormat::RGB8
    } else {
        PixelFormat::ARGB32
    }
}

/// A display mode.
#[derive(Clone, Copy, PartialEq, Eq, Structural, Debug)]
pub struct DisplayMode {
    pub width: u32,
    pub height: u32,
    pub refresh_rate: u32,
}

/// Work another subsystem has to do for a call.
#[derive(Clone, Copy, PartialEq, Eq, Structural, Debug)]
pub enum ServiceRequest {
    /// Send an IPC message from user memory; reply with the message
    /// identifier, or 0 when sending failed.
    IpcSend { from: u64, to: u64, data_ptr: u64, data_len: u64, meta_ptr: u64, meta_len: u64 },
    /// Read the input of a crypto operation from user memory; reply with its
    /// bytes, or none when the pointer is null or the length zero.
    PqcInput { operation: u32, input_ptr: u64, input_len: u64 },
    /// Allocate a framebuffer.
    FramebufferAlloc { width: u32, height: u32, format: PixelFormat },
    /// Free a framebuffer.
    FramebufferFree { fb_id: u64 },
    /// Look a framebuffer up.
    FramebufferGet { fb_id: u64 },
    /// Look a display up.
    DisplayGet { device_id: u64 },
    /// Set a display mode; the refresh rate is the display's current one.
    DisplaySetMode { device_id: u64, width: u32, height: u32 },
    /// Read up to `max_events` input events.
    InputRead { max_events: u64 },
    /// List the input devices.
    InputGetDevices,
    /// Copy `len` bytes of the finished result of `handle` to `ptr`.
    CopyOut { handle: u64, ptr: u64, len: u64 },
}

/// A size in pixels.
#[derive(Clone, Copy, PartialEq, Eq, Structural, Debug)]
pub struct PixelSize {
    pub width: u32,
    pub height: u32,
}

/// What the subsystem answered.
#[derive(Clone, Copy, PartialEq, Eq, Structural, Debug)]
pub enum ServiceReply {
    /// The subsystem is not there.
    Unavailable,
    /// An identifier or count, or a failure.
    Value(Option<u64>),
    /// A width and a height, or nothing found.
    Size(Option<PixelSize>),
    /// Done, or failed.
    Status(bool),
}

/// A call finished, or waiting for a subsystem.
#[derive(Clone, Copy, PartialEq, Eq, Structural, Debug)]
pub enum SyscallStep {
    Done(SyscallResult),
    Service(ServiceRequest),
}

/// How a call starts, given the token check: the per-call capability bit,
/// the argument checks, and the calls whose backends are not wired up.
pub open spec fn dispatch(n: u64, args: Seq<u64>, t: CapabilityToken) -> SyscallStep {
    match syscall_of(n) {
        None => SyscallStep::Done(failed(SyscallError::InvalidSyscall)),
        Some(call) => match call {
            Syscall::AgentSpawn => if !has_bit(t, 0) {
                SyscallStep::Done(failed(SyscallError::PermissionDenied))
            } else if arg_or(args, 0, 0) == 0 {
                SyscallStep::Done(failed(SyscallError::InvalidSpec))
            } else {
                SyscallStep::Done(SyscallResult { async_handle: 1, ..succeeded(0) })
            },
            Syscall::AgentSupervisorRegister => if !has_bit(t, 1) {
                SyscallStep::Done(failed(SyscallError::PermissionDenied))
            } else {
                SyscallStep::Done(succeeded(1))
            },
            Syscall::AgentRegister => if !has_bit(t, 2) {
                SyscallStep::Done(failed(SyscallError::PermissionDenied))
            } else if arg_or(args, 0, 0) == 0 {
                SyscallStep::Done(failed(SyscallError::InvalidSpec))
            } else {
                SyscallStep::Done(succeeded(1))
            },
            Syscall::AgentKill => if !has_bit(t, 3) {
                SyscallStep::Done(failed(SyscallError::PermissionDenied))
            } else {
                SyscallStep::Done(succeeded(0))
            },
            Syscall::IPCSend => if arg_or(args, 3, 0) > MAX_IPC_SIZE {
                SyscallStep::Done(failed(SyscallError::MessageTooLarge))
            } else {
                SyscallStep::Service(
                    ServiceRequest::IpcSend {
                        from: arg_or(args, 0, 0),
                        to: arg_or(args, 1, 0),
                        data_ptr: arg_or(args, 2, 0),
                        data_len: arg_or(args, 3, 0),
                        meta_ptr: arg_or(args, 4, 0),
                        meta_len: arg_or(args, 5, 0),
                    },
                )
            },
            Syscall::IPCRecv => SyscallStep::Done(failed(SyscallError::NoMessage)),
            Syscall::AgentMemAlloc => if !has_bit(t, 4) {
                SyscallStep::Done(failed(SyscallError::PermissionDenied))
            } else if arg_or(args, 1, 0) > MAX_AGENT_MEMORY {
                SyscallStep::Done(failed(SyscallError::MemoryLimitExceeded))
            } else {
                SyscallStep::Done(failed(SyscallError::OutOfMemory))
            },
            Syscall::AgentMemFree => if !has_bit(t, 4) {
                SyscallStep::Done(failed(SyscallError::PermissionDenied))
            } else {
                SyscallStep::Done(succeeded(0))
            },
            Syscall::FrameAlloc => SyscallStep::Done(failed(SyscallError::OutOfMemory)),
            Syscall::PageMap => SyscallStep::Done(failed(SyscallError::InvalidAddress)),
            Syscall::AgentPoolAlloc => SyscallStep::Done(failed(SyscallError::OutOfMemory)),
            Syscall::PQCOperation => if arg_or(args, 2, 0) > MAX_PQC_INPUT {
                SyscallStep::Done(failed(SyscallError::MessageTooLarge))
            } else {
                SyscallStep::Service(
                    ServiceRequest::PqcInput {
                        operation: arg_or(args, 0, 0) as u32,
                        input_ptr: arg_or(args, 1, 0),
                        input_len: arg_or(args, 2, 0),
                    },
                )
            },
            Syscall::GetAsyncResult => SyscallStep::Done(failed(SyscallError::NotReady)),
            Syscall::FramebufferAlloc => if !has_bit(t, 6) {
                SyscallStep::Done(failed(SyscallError::PermissionDenied))
            } else {
                SyscallStep::Service(
                    ServiceRequest::FramebufferAlloc {
                        width: arg_or(args, 0, 0) as u32,
                        height: arg_or(args, 1, 0) as u32,
                        format: pixel_format_of(arg_or(args, 2, 0) as u32),
                    },
                )
            },
            Syscall::FramebufferFree => if !has_bit(t, 6) {
                SyscallStep::Done(failed(SyscallError::PermissionDenied))
            } else {
                SyscallStep::Service(ServiceRequest::FramebufferFree { fb_id: arg_or(args, 0, 0) })
            },
            Syscall::FramebufferGet => if !has_bit(t, 6) {
                SyscallStep::Done(failed(SyscallError::PermissionDenied))
            } else {
                SyscallStep::Service(ServiceRequest::FramebufferGet { fb_id: arg_or(args, 0, 0) })
            },
            Syscall::DisplayGet => if !has_bit(t, 6) {
                SyscallStep::Done(failed(SyscallError::PermissionDenied))
            } else {
                SyscallStep::Service(ServiceRequest::DisplayGet { device_id: arg_or(args, 0, 0) })
            },
            Syscall::DisplaySetMode => if !has_bit(t, 6) {
                SyscallStep::Done(failed(SyscallError::PermissionDenied))
            } else {
                SyscallStep::Service(
                    ServiceRequest::DisplaySetMode {
                        device_id: arg_or(args, 0, 0),
                        width: arg_or(args, 1, 0) as u32,
                        height: arg_or(args, 2, 0) as u32,
                    },
                )
            },
            Syscall::InputRead => if !has_bit(t, 7) {
                SyscallStep::Done(failed(SyscallError::PermissionDenied))
            } else {
                SyscallStep::Service(
                    ServiceRequest::InputRead { max_events: arg_or(args, 0, DEFAULT_INPUT_EVENTS) },
                )
            },
            Syscall::InputGetDevices => if !has_bit(t, 7) {
                SyscallStep::Done(failed(SyscallError::PermissionDenied))
            } else {
                SyscallStep::Service(ServiceRequest::InputGetDevices)
            },
        },
    }
}

/// A width in the low half and a height in the high half of a word.
pub open spec fn packed_size(w: u32, h: u32) -> u64 {
    (w as u64) | ((h as u64) << 32u64)
}

/// The result of a call from the subsystem's reply.
pub open spec fn completion(request: ServiceRequest, reply: ServiceReply, handle: u64) -> SyscallResult {
    match request {
        ServiceRequest::IpcSend { .. } => match reply {
            ServiceReply::Value(Some(id)) => succeeded(id),
            _ => succeeded(0),
        },
        ServiceRequest::PqcInput { .. } => SyscallResult { async_handle: handle, ..succeeded(0) },
        ServiceRequest::FramebufferAlloc { .. } => match reply {
            ServiceReply::Value(Some(id)) => succeeded(id),
            ServiceReply::Unavailable => failed(SyscallError::ResourceExhausted),
            _ => failed(SyscallError::OutOfMemory),
        },
        ServiceRequest::FramebufferFree { .. } => match reply {
            ServiceReply::Status(true) => succeeded(0),
            ServiceReply::Unavailable => failed(SyscallError::ResourceExhausted),
            _ => failed(SyscallError::InvalidHandle),
        },
        ServiceRequest::FramebufferGet { .. } | ServiceRequest::DisplayGet { .. } => match reply {
            ServiceReply::Size(Some(sz)) => succeeded(packed_size(sz.width, sz.height)),
            ServiceReply::Unavailable => failed(SyscallError::ResourceExhausted),
            _ => failed(SyscallError::InvalidHandle),
        },
        ServiceRequest::DisplaySetMode { .. } => match reply {
            ServiceReply::Status(true) => succeeded(0),
            ServiceReply::Unavailable => failed(SyscallError::ResourceExhausted),
            _ => failed(SyscallError::InvalidSpec),
        },
        ServiceRequest::InputRead { .. } | ServiceRequest::InputGetDevices => match reply {
            ServiceReply::Value(Some(n)) => succeeded(n),
            _ => failed(SyscallError::ResourceExhausted),
        },
        ServiceRequest::CopyOut { len, .. } => SyscallResult { data_len: len, ..succeeded(0) },
    }
}

/// The mode a display is set to: the requested size at the display's
/// current refresh rate, or 60 Hz when that is unknown.
pub fn display_mode(width: u32, height: u32, current_refresh: Option<u32>) -> (m: DisplayMode)
    ensures
        m == (DisplayMode {
            width,
            height,
            refresh_rate: match current_refresh {
                Some(r) => r,
                None => DEFAULT_REFRESH_RATE,
            },
        }),
{
    DisplayMode {
        width,
        height,
        refresh_rate: match current_refresh {
            Some(r) => r,
            None => DEFAULT_REFRESH_RATE,
        },
    }
}

/// The system-call layer's own state: pending crypto operations and the
/// results of finished asynchronous operations.
pub struct SyscallDispatcher {
    next_async_handle: u64,
    async_operations: BTreeMap<u64, (u32, Vec<u8>)>,
    async_results: BTreeMap<u64, Vec<u8>>,
}

impl SyscallDispatcher {
    /// The handle the next crypto operation gets.
    pub closed spec fn next_handle(&self) -> u64 {
        self.next_async_handle
    }

    /// Operation and input of each pending crypto operation.
    pub closed spec fn operations(&self) -> Map<u64, (u32, Seq<u8>)> {
        self.async_operations@.map_values(|p: (u32, Vec<u8>)| (p.0, p.1@))
    }

    /// The result bytes of each finished operation not yet collected.
    pub closed spec fn results(&self) -> Map<u64, Seq<u8>> {
        self.async_results@.map_values(|v: Vec<u8>| v@)
    }

    pub fn new() -> (d: Self)
        ensures
            d.next_handle() == 1,
            d.operations() == Map::<u64, (u32, Seq<u8>)>::empty(),
            d.results() == Map::<u64, Seq<u8>>::empty(),
    {
        let d = SyscallDispatcher {
            next_async_handle: 1,
            async_operations: BTreeMap::new(),
            async_results: BTreeMap::new(),
        };
        proof {
            assert(d.operations() =~= Map::<u64, (u32, Seq<u8>)>::empty());
            assert(d.results() =~= Map::<u64, Seq<u8>>::empty());
        }
        d
    }

    /// Handles system call `syscall` with `args` for the holder of
    /// `capability` at `now`. An invalid token is refused before anything
    /// else; then the call is dispatched by number.
    pub fn handle_syscall(
        &mut self,
        syscall: u64,
        args: &[u64],
        capability: &CapabilityToken,
        now: u64,
    ) -> (r: SyscallStep)
        ensures
            !token_valid(*capability, now) ==> r == SyscallStep::Done(
                failed(SyscallError::InvalidCapability),
            ),
            token_valid(*capability, now) && syscall != 13 ==> r == dispatch(
                syscall,
                args@,
                *capability,
            ),
            token_valid(*capability, now) && syscall == 13 ==> r == old(self).async_result_step(
                arg_or(args@, 0, 0),
                arg_or(args@, 1, 0),
                arg_or(args@, 2, 0),
            ),
            final(self).next_handle() == old(self).next_handle(),
            final(self).operations() == old(self).operations(),
            final(self).results() == old(self).results(),
    {
        if !validate_capability(capability, now) {
            return SyscallStep::Done(fail(SyscallError::InvalidCapability));
        }
        if syscall == 13 {
            return self.get_async_result(arg(args, 0, 0), arg(args, 1, 0), arg(args, 2, 0));
        }
        let caps = capability.capabilities;
        match Syscall::from_number(syscall) {
            None => SyscallStep::Done(fail(SyscallError::InvalidSyscall)),
            Some(call) => match call {
                Syscall::AgentSpawn => {
                    if caps & (1u64 << 0u64) == 0 {
                        SyscallStep::Done(fail(SyscallError::PermissionDenied))
                    } else if arg(args, 0, 0) == 0 {
                        SyscallStep::Done(fail(SyscallError::InvalidSpec))
                    } else {
                        SyscallStep::Done(
                            SyscallResult {
                                success: true,
                                value: 0,
                                error_code: 0,
                                async_handle: 1,
                                data_len: 0,
                            },
                        )
                    }
                },
                Syscall::AgentSupervisorRegister => {
                    if caps & (1u64 << 1u64) == 0 {
                        SyscallStep::Done(fail(SyscallError::PermissionDenied))
                    } else {
                        SyscallStep::Done(succeed(1))
                    }
                },
                Syscall::AgentRegister => {
                    if caps & (1u64 << 2u64) == 0 {
                        SyscallStep::Done(fail(SyscallError::PermissionDenied))
                    } else if arg(args, 0, 0) == 0 {
                        SyscallStep::Done(fail(SyscallError::InvalidSpec))
                    } else {
                        SyscallStep::Done(succeed(1))
                    }
                },
                Syscall::AgentKill => {
                    if caps & (1u64 << 3u64) == 0 {
                        SyscallStep::Done(fail(SyscallError::PermissionDenied))
                    } else {
                        SyscallStep::Done(succeed(0))
                    }
                },
                Syscall::IPCSend => {
                    if arg(args, 3, 0) > MAX_IPC_SIZE {
                        SyscallStep::Done(fail(SyscallError::MessageTooLarge))
                    } else {
                        SyscallStep::Service(
                            ServiceRequest::IpcSend {
                                from: arg(args, 0, 0),
                                to: arg(args, 1, 0),
                                data_ptr: arg(args, 2, 0),
                                data_len: arg(args, 3, 0),
                                meta_ptr: arg(args, 4, 0),
                                meta_len: arg(args, 5, 0),
                            },
                        )
                    }
                },
                Syscall::IPCRecv => SyscallStep::Done(fail(SyscallError::NoMessage)),
                Syscall::AgentMemAlloc => {
                    if caps & (1u64 << 4u64) == 0 {
                        SyscallStep::Done(fail(SyscallError::PermissionDenied))
                    } else if arg(args, 1, 0) > MAX_AGENT_MEMORY {
                        SyscallStep::Done(fail(SyscallError::MemoryLimitExceeded))
                    } else {
                        SyscallStep::Done(fail(SyscallError::OutOfMemory))
                    }
                },
                Syscall::AgentMemFree => {
                    if caps & (1u64 << 4u64) == 0 {
                        SyscallStep::Done(fail(SyscallError::PermissionDenied))
                    } else {
                        SyscallStep::Done(succeed(0))
                    }
                },
                Syscall::FrameAlloc => SyscallStep::Done(fail(SyscallError::OutOfMemory)),
                Syscall::PageMap => SyscallStep::Done(fail(SyscallError::InvalidAddress)),
                Syscall::AgentPoolAlloc => SyscallStep::Done(fail(SyscallError::OutOfMemory)),
                Syscall::PQCOperation => {
                    if arg(args, 2, 0) > MAX_PQC_INPUT {
                        SyscallStep::Done(fail(SyscallError::MessageTooLarge))
                    } else {
                        SyscallStep::Service(
                            ServiceRequest::PqcInput {
                                operation: arg(args, 0, 0) as u32,
                                input_ptr: arg(args, 1, 0),
                                input_len: arg(args, 2, 0),
                            },
                        )
                    }
                },
                Syscall::GetAsyncResult => SyscallStep::Done(fail(SyscallError::NotReady)),
                Syscall::FramebufferAlloc => {
                    if caps & (1u64 << 6u64) == 0 {
                        SyscallStep::Done(fail(SyscallError::PermissionDenied))
                    } else {
                        let f = arg(args, 2, 0) as u32;
                        let format = if f == 1 {
                            PixelFormat::RGB24
                        } else if f == 2 {
                            PixelFormat::RGB16
                        } else if f == 3 {
                            PixelFormat::RGB8
                        } else {
                            PixelFormat::ARGB32
                        };
                        SyscallStep::Service(
                            ServiceRequest::FramebufferAlloc {
                                width: arg(args, 0, 0) as u32,
                                height: arg(args, 1, 0) as u32,
                                format,
                            },
                        )
                    }
                },
                Syscall::FramebufferFree => {
                    if caps & (1u64 << 6u64) == 0 {
                        SyscallStep::Done(fail(SyscallError::PermissionDenied))
                    } else {
                        SyscallStep::Service(ServiceRequest::FramebufferFree { fb_id: arg(args, 0, 0) })
                    }
                },
                Syscall::FramebufferGet => {
                    if caps & (1u64 << 6u64) == 0 {
                        SyscallStep::Done(fail(SyscallError::PermissionDenied))
                    } else {
                        SyscallStep::Service(ServiceRequest::FramebufferGet { fb_id: arg(args, 0, 0) })
                    }
                },
                Syscall::DisplayGet => {
                    if caps & (1u64 << 6u64) == 0 {
                        SyscallStep::Done(fail(SyscallError::PermissionDenied))
                    } else {
                        SyscallStep::Service(ServiceRequest::DisplayGet { device_id: arg(args, 0, 0) })
                    }
                },
                Syscall::DisplaySetMode => {
                    if caps & (1u64 << 6u64) == 0 {
                        SyscallStep::Done(fail(SyscallError::PermissionDenied))
                    } else {
                        SyscallStep::Service(
                            ServiceRequest::DisplaySetMode {
                                device_id: arg(args, 0, 0),
                                width: arg(args, 1, 0) as u32,
                                height: arg(args, 2, 0) as u32,
                            },
                        )
                    }
                },
                Syscall::InputRead => {
                    if caps & (1u64 << 7u64) == 0 {
                        SyscallStep::Done(fail(SyscallError::PermissionDenied))
                    } else {
                        SyscallStep::Service(
                            ServiceRequest::InputRead {
                                max_events: arg(args, 0, DEFAULT_INPUT_EVENTS),
                            },
                        )
                    }
                },
                Syscall::InputGetDevices => {
                    if caps & (1u64 << 7u64) == 0 {
                        SyscallStep::Done(fail(SyscallError::PermissionDenied))
                    } else {
                        SyscallStep::Service(ServiceRequest::InputGetDevices)
                    }
                },
            },
        }
    }

    /// How a request for the result of `handle` starts: a zero handle is
    /// refused, then a null or empty buffer; a finished result is copied
    /// out, as much as the buffer holds; otherwise it is not ready.
    pub open spec fn async_result_step(&self, handle: u64, ptr: u64, len: u64) -> SyscallStep {
        if handle == 0 {
            SyscallStep::Done(failed(SyscallError::InvalidHandle))
        } else if ptr == 0 || len == 0 {
            SyscallStep::Done(failed(SyscallError::InvalidPointer))
        } else if self.results().contains_key(handle) {
            SyscallStep::Service(
                ServiceRequest::CopyOut {
                    handle,
                    ptr,
                    len: if len < self.results()[handle].len() {
                        len
                    } else {
                        self.results()[handle].len() as u64
                    },
                },
            )
        } else {
            SyscallStep::Done(failed(SyscallError::NotReady))
        }
    }

    /// Starts collecting the result of `handle` into the buffer at `ptr` of
    /// `len` bytes: the copy of a result found is asked for, and the result
    /// is taken out of the table with [`Self::take_result`].
    pub fn get_async_result(&mut self, handle: u64, ptr: u64, len: u64) -> (r: SyscallStep)
        ensures
            r == old(self).async_result_step(handle, ptr, len),
            final(self).results() == old(self).results(),
            final(self).next_handle() == old(self).next_handle(),
            final(self).operations() == old(self).operations(),
    {
        if handle == 0 {
            return SyscallStep::Done(fail(SyscallError::InvalidHandle));
        }
        if ptr == 0 || len == 0 {
            return SyscallStep::Done(fail(SyscallError::InvalidPointer));
        }
        match self.async_results.get(&handle) {
            Some(data) => {
                let copy_len = if len < data.len() as u64 {
                    len
                } else {
                    data.len() as u64
                };
                SyscallStep::Service(ServiceRequest::CopyOut { handle, ptr, len: copy_len })
            },
            None => SyscallStep::Done(fail(SyscallError::NotReady)),
        }
    }

    /// Takes the result of `handle` out of the table.
    pub fn take_result(&mut self, handle: u64) -> (r: Option<Vec<u8>>)
        ensures
            match r {
                Some(v) => old(self).results().contains_key(handle) && v@ == old(self).results()[handle]
                    && final(self).results() == old(self).results().remove(handle),
                None => !old(self).results().contains_key(handle) && final(self).results() == old(
                    self,
                ).results(),
            },
            final(self).next_handle() == old(self).next_handle(),
            final(self).operations() == old(self).operations(),
    {
        let r = self.async_results.remove(&handle);
        proof {
            assert(self.results() =~= old(self).results().remove(handle));
        }
        r
    }

    /// Queues a crypto operation with the input read from user memory and
    /// returns its handle; handles wrap around.
    pub fn submit_pqc_operation(&mut self, operation: u32, input: Vec<u8>) -> (handle: u64)
        ensures
            handle == old(self).next_handle(),
            final(self).next_handle() == old(self).next_handle().wrapping_add(1),
            final(self).operations() == old(self).operations().insert(handle, (operation, input@)),
            final(self).results() == old(self).results(),
    {
        let handle = self.next_async_handle;
        self.next_async_handle = handle.wrapping_add(1);
        let ghost input_view = input@;
        self.async_operations.insert(handle, (operation, input));
        proof {
            assert(self.operations() =~= old(self).operations().insert(
                handle,
                (operation, input_view),
            ));
        }
        handle
    }

    /// The result of a call from the reply to its service request; a crypto
    /// operation's input is queued under a fresh handle.
    pub fn complete(&mut self, request: ServiceRequest, reply: ServiceReply, pqc_input: Vec<u8>) -> (r:
        SyscallResult)
        ensures
            r == completion(request, reply, old(self).next_handle()),
            request is PqcInput ==> final(self).next_handle() == old(self).next_handle().wrapping_add(1)
                && final(self).operations() == old(self).operations().insert(
                old(self).next_handle(),
                (request->operation, pqc_input@),
            ),
            !(request is PqcInput) ==> final(self).next_handle() == old(self).next_handle()
                && final(self).operations() == old(self).operations(),
            final(self).results() == old(self).results(),
    {
        match request {
            ServiceRequest::IpcSend { .. } => match reply {
                ServiceReply::Value(Some(id)) => succeed(id),
                _ => succeed(0),
            },
            ServiceRequest::PqcInput { operation, .. } => {
                let handle = self.submit_pqc_operation(operation, pqc_input);
                SyscallResult { success: true, value: 0, error_code: 0, async_handle: handle, data_len: 0 }
            },
            ServiceRequest::FramebufferAlloc { .. } => match reply {
                ServiceReply::Value(Some(id)) => succeed(id),
                ServiceReply::Unavailable => fail(SyscallError::ResourceExhausted),
                _ => fail(SyscallError::OutOfMemory),
            },
            ServiceRequest::FramebufferFree { .. } => match reply {
                ServiceReply::Status(true) => succeed(0),
                ServiceReply::Unavailable => fail(SyscallError::ResourceExhausted),
                _ => fail(SyscallError::InvalidHandle),
            },
            ServiceRequest::FramebufferGet { .. } | ServiceRequest::DisplayGet { .. } => match reply {
                ServiceReply::Size(Some(sz)) => succeed(
                    (sz.width as u64) | ((sz.height as u64) << 32u64),
                ),
                ServiceReply::Unavailable => fail(SyscallError::ResourceExhausted),
                _ => fail(SyscallError::InvalidHandle),
            },
            ServiceRequest::DisplaySetMode { .. } => match reply {
                ServiceReply::Status(true) => succeed(0),
                ServiceReply::Unavailable => fail(SyscallError::ResourceExhausted),
                _ => fail(SyscallError::InvalidSpec),
            },
            ServiceRequest::InputRead { .. } | ServiceRequest::InputGetDevices => match reply {
                ServiceReply::Value(Some(n)) => succeed(n),
                _ => fail(SyscallError::ResourceExhausted),
            },
            ServiceRequest::CopyOut { len, .. } => SyscallResult {
                success: true,
                value: 0,
                error_code: 0,
                async_handle: 0,
                data_len: len,
            },
        }
    }
}

/// A refused token refuses every call, whatever its number and arguments.
pub proof fn law_invalid_token_refuses_everything(t: CapabilityToken, now: u64)
    requires
        t.expires_at < now,
    ensures
        !token_valid(t, now),
{
}

/// Every call that needs a capability bit is refused with PermissionDenied
/// when the token lacks it.
pub proof fn law_missing_bit_is_denied(n: u64, args: Seq<u64>, t: CapabilityToken)
    requires
        syscall_of(n) is Some,
        ({
            let b: u64 = match syscall_of(n)->0 {
                Syscall::AgentSpawn => 0,
                Syscall::AgentSupervisorRegister => 1,
                Syscall::AgentRegister => 2,
                Syscall::AgentKill => 3,
                Syscall::AgentMemAlloc | Syscall::AgentMemFree => 4,
                Syscall::FramebufferAlloc | Syscall::FramebufferFree | Syscall::FramebufferGet
                | Syscall::DisplayGet | Syscall::DisplaySetMode => 6,
                Syscall::InputRead | Syscall::InputGetDevices => 7,
                _ => 64,
            };
            b < 64 && !has_bit(t, b)
        }),
    ensures
        dispatch(n, args, t) == SyscallStep::Done(failed(SyscallError::PermissionDenied)),
{
}

/// A permitted call that needs another subsystem hands it the caller's
/// arguments in the order the call takes them: for the display mode, the
/// device is the first argument, the width the second and the height the
/// third; for a framebuffer, the width, height and pixel format; for a
/// lookup or a release, the first argument; for a message, sender,
/// receiver, data and metadata; for a crypto operation, the operation, the
/// input pointer and its length; for input, the most events to read.
pub proof fn law_requests_carry_their_arguments(args: Seq<u64>, t: CapabilityToken)
    requires
        args.len() >= 6,
    ensures
        t.capabilities & 64 != 0 ==> dispatch(18, args, t) == SyscallStep::Service(
            ServiceRequest::DisplaySetMode {
                device_id: args[0],
                width: args[1] as u32,
                height: args[2] as u32,
            },
        ),
        t.capabilities & 64 != 0 ==> dispatch(14, args, t) == SyscallStep::Service(
            ServiceRequest::FramebufferAlloc {
                width: args[0] as u32,
                height: args[1] as u32,
                format: pixel_format_of(args[2] as u32),
            },
        ),
        t.capabilities & 64 != 0 ==> dispatch(15, args, t) == SyscallStep::Service(
            ServiceRequest::FramebufferFree { fb_id: args[0] },
        ),
        t.capabilities & 64 != 0 ==> dispatch(16, args, t) == SyscallStep::Service(
            ServiceRequest::FramebufferGet { fb_id: args[0] },
        ),
        t.capabilities & 64 != 0 ==> dispatch(17, args, t) == SyscallStep::Service(
            ServiceRequest::DisplayGet { device_id: args[0] },
        ),
        t.capabilities & 128 != 0 ==> dispatch(19, args, t) == SyscallStep::Service(
            ServiceRequest::InputRead { max_events: args[0] },
        ),
        args[3] <= MAX_IPC_SIZE ==> dispatch(5, args, t) == SyscallStep::Service(
            ServiceRequest::IpcSend {
                from: args[0],
                to: args[1],
                data_ptr: args[2],
                data_len: args[3],
                meta_ptr: args[4],
                meta_len: args[5],
            },
        ),
        args[2] <= MAX_PQC_INPUT ==> dispatch(12, args, t) == SyscallStep::Service(
            ServiceRequest::PqcInput { operation: args[0] as u32, input_ptr: args[1], input_len: args[2] },
        ),
        t.capabilities & 64 == 0 ==> dispatch(18, args, t) == SyscallStep::Done(
            failed(SyscallError::PermissionDenied),
        ),
{
    let c = t.capabilities;
    assert(c & (1u64 << 6u64) == c & 64) by (bit_vector);
    assert(c & (1u64 << 7u64) == c & 128) by (bit_vector);
}

} // verus!
