//! CPU exceptions and fault domains: what to do about each exception,
//! by whether it struck inside an agent's sandbox. The descriptor table
//! and the handlers' entry points belong to the embedding code.

use vstd::prelude::*;
use crate::agent_mapping::{AgentMemoryMapping, owner_of};

verus! {

/// An exception the kernel handles.
#[derive(Clone, Copy, PartialEq, Eq, Structural, Debug)]
pub enum ExceptionKind {
    DoubleFault,
    PageFault,
    GeneralProtectionFault,
    StackSegmentFault,
    SegmentNotPresent,
    InvalidOpcode,
    AlignmentCheck,
}

/// What the kernel does about an exception.
#[derive(Clone, Copy, PartialEq, Eq, Structural, Debug)]
pub enum ExceptionAction {
    /// The kernel itself faulted: it stops.
    KernelPanic,
    /// An agent violated its sandbox: it is killed.
    KillAgent(u64),
}

/// Whether an agent is killed for a violation: always.
pub fn should_kill_on_violation(agent_id: u64, kind: ExceptionKind) -> (r: bool)
    ensures
        r,
{
    true
}

/// What to do about `kind` at `address` (the faulting address of a page
/// fault, the instruction pointer otherwise): a double fault stops the
/// kernel; a fault inside an agent's sandbox kills the agent; any other
/// stops the kernel.
pub open spec fn exception_action(owners: Map<u64, u64>, kind: ExceptionKind, address: u64) -> ExceptionAction {
    if kind == ExceptionKind::DoubleFault {
        ExceptionAction::KernelPanic
    } else {
        match owner_of(owners, address) {
            Some(agent) => ExceptionAction::KillAgent(agent),
            None => ExceptionAction::KernelPanic,
        }
    }
}

/// Decides what to do about an exception; see [`exception_action`].
pub fn handle_exception(mapping: &AgentMemoryMapping, kind: ExceptionKind, address: u64) -> (r:
    ExceptionAction)
    ensures
        r == exception_action(mapping.owners(), kind, address),
{
    if kind == ExceptionKind::DoubleFault {
        return ExceptionAction::KernelPanic;
    }
    match mapping.get_agent_for_address(address) {
        Some(agent_id) => {
            if should_kill_on_violation(agent_id, kind) {
                ExceptionAction::KillAgent(agent_id)
            } else {
                ExceptionAction::KernelPanic
            }
        },
        None => ExceptionAction::KernelPanic,
    }
}

} // verus!
