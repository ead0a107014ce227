//! The kernel's error taxonomy and how errors propagate: whether to retry,
//! how often, and whether to escalate.

use vstd::prelude::*;

verus! {

/// Area an error comes from.
#[derive(Clone, Copy, PartialEq, Eq, Structural, Debug)]
pub enum ErrorCategory {
    IO,
    Memory,
    Network,
    Security,
    System,
    Agent,
    Capability,
    Resource,
}

/// How serious an error is.
#[derive(Clone, Copy, PartialEq, Eq, Structural, Debug)]
pub enum ErrorSeverity {
    Info,
    Warning,
    Error,
    Critical,
    Fatal,
}

/// A resource named by an error.
#[derive(Clone, Copy, PartialEq, Eq, Structural, Debug)]
pub struct ResourceId {
    pub resource_type: u32,
    pub resource_id: u64,
}

/// An operation named by an error.
#[derive(Clone, Copy, PartialEq, Eq, Structural, Debug)]
pub struct OperationId {
    pub operation_type: u32,
    pub operation_id: u64,
}

/// An error of the kernel or of user space.
pub struct GlobalError {
    pub category: ErrorCategory,
    pub severity: ErrorSeverity,
    pub code: u32,
    pub agent_id: Option<u64>,
    pub resource: Option<ResourceId>,
    pub operation: Option<OperationId>,
    pub context: Vec<u8>,
    pub timestamp: u64,
}

/// How an error propagates.
#[derive(Clone, Copy, PartialEq, Eq, Structural, Debug)]
pub struct ErrorPropagation {
    pub retry: bool,
    pub retry_count: u32,
    pub escalate: bool,
    pub escalate_to: Option<u64>,
}

/// The propagation of errors of severity `s`: informational errors and
/// warnings neither retry nor escalate; errors retry three times; critical
/// errors retry once and escalate to the kernel (agent 0); fatal errors
/// escalate to the kernel without retry.
pub open spec fn propagation_of(s: ErrorSeverity) -> ErrorPropagation {
    match s {
        ErrorSeverity::Info | ErrorSeverity::Warning => ErrorPropagation {
            retry: false,
            retry_count: 0,
            escalate: false,
            escalate_to: None,
        },
        ErrorSeverity::Error => ErrorPropagation {
            retry: true,
            retry_count: 3,
            escalate: false,
            escalate_to: None,
        },
        ErrorSeverity::Critical => ErrorPropagation {
            retry: true,
            retry_count: 1,
            escalate: true,
            escalate_to: Some(0),
        },
        ErrorSeverity::Fatal => ErrorPropagation {
            retry: false,
            retry_count: 0,
            escalate: true,
            escalate_to: Some(0),
        },
    }
}

/// Creates errors and decides their propagation.
pub struct ErrorHandler;

impl ErrorHandler {
    /// An error with no resource, operation or context, stamped `now`.
    pub fn create(
        category: ErrorCategory,
        severity: ErrorSeverity,
        code: u32,
        agent_id: Option<u64>,
        now: u64,
    ) -> (e: GlobalError)
        ensures
            e.category == category,
            e.severity == severity,
            e.code == code,
            e.agent_id == agent_id,
            e.resource is None,
            e.operation is None,
            e.context@ == Seq::<u8>::empty(),
            e.timestamp == now,
    {
        GlobalError {
            category,
            severity,
            code,
            agent_id,
            resource: None,
            operation: None,
            context: Vec::new(),
            timestamp: now,
        }
    }

    /// The propagation rules for `error`, by its severity.
    pub fn get_propagation_rules(error: &GlobalError) -> (p: ErrorPropagation)
        ensures
            p == propagation_of(error.severity),
    {
        match error.severity {
            ErrorSeverity::Info | ErrorSeverity::Warning => ErrorPropagation {
                retry: false,
                retry_count: 0,
                escalate: false,
                escalate_to: None,
            },
            ErrorSeverity::Error => ErrorPropagation {
                retry: true,
                retry_count: 3,
                escalate: false,
                escalate_to: None,
            },
            ErrorSeverity::Critical => ErrorPropagation {
                retry: true,
                retry_count: 1,
                escalate: true,
                escalate_to: Some(0),
            },
            ErrorSeverity::Fatal => ErrorPropagation {
                retry: false,
                retry_count: 0,
                escalate: true,
                escalate_to: Some(0),
            },
        }
    }

    /// Whether attempt number `attempt` (from 0) may retry `error`.
    pub fn should_retry(error: &GlobalError, attempt: u32) -> (r: bool)
        ensures
            r == (propagation_of(error.severity).retry && attempt < propagation_of(
                error.severity,
            ).retry_count),
    {
        let rules = Self::get_propagation_rules(error);
        rules.retry && attempt < rules.retry_count
    }

    /// Whether `error` is escalated.
    pub fn should_escalate(error: &GlobalError) -> (r: bool)
        ensures
            r == propagation_of(error.severity).escalate,
    {
        let rules = Self::get_propagation_rules(error);
        rules.escalate
    }
}

/// An error is retried a bounded number of times: never from attempt three
/// on, and only errors and critical errors are retried at all.
pub proof fn law_retries_are_bounded(s: ErrorSeverity, attempt: u32)
    ensures
        attempt >= 3 ==> !(propagation_of(s).retry && attempt < propagation_of(s).retry_count),
        propagation_of(s).retry ==> (s == ErrorSeverity::Error || s == ErrorSeverity::Critical),
        propagation_of(s).escalate <==> (s == ErrorSeverity::Critical || s == ErrorSeverity::Fatal),
{
}

} // verus!
