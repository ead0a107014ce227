//! Capability tokens and the capability bits they carry.

use vstd::prelude::*;

verus! {

/// Bits of the capability mask.
pub struct Capabilities {
    pub bits: u64,
}

pub const SPAWN_AGENT: u64 = 1;
pub const KILL_AGENT: u64 = 2;
pub const ALLOC_MEMORY: u64 = 4;
pub const ACCESS_FS: u64 = 8;
pub const ACCESS_NET: u64 = 16;
pub const ACCESS_IO: u64 = 32;
pub const ACCESS_GPU: u64 = 64;
pub const ACCESS_TPU: u64 = 128;
pub const ACCESS_NPU: u64 = 256;
pub const SUPERVISOR: u64 = 512;
pub const ADMIN: u64 = 1024;

impl Capabilities {
    /// The capability set with exactly the given bits.
    pub fn from_bits(bits: u64) -> (c: Capabilities)
        ensures
            c.bits == bits,
    {
        Capabilities { bits }
    }

    /// The raw bit mask.
    pub fn bits(&self) -> (b: u64)
        ensures
            b == self.bits,
    {
        self.bits
    }
}

/// A capability token held by an agent.
pub struct CapabilityToken {
    pub token_id: u64,
    pub agent_id: u64,
    pub capabilities: u64,
    pub expires_at: u64,
    pub signature: [u8; 64],
}

impl CapabilityToken {
    /// Whether the token holds at least one of the bits of `capability`.
    pub fn has_capability(&self, capability: Capabilities) -> (r: bool)
        ensures
            r == (self.capabilities & capability.bits != 0),
    {
        (self.capabilities & capability.bits()) != 0
    }

    /// Whether the token expired before `now`.
    pub fn is_expired(&self, now: u64) -> (r: bool)
        ensures
            r == (self.expires_at < now),
    {
        self.expires_at < now
    }
}

} // verus!
