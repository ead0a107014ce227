//! AIOS kernel logic: capabilities, scheduling, memory bookkeeping,
//! drivers, auditing and the system-call layer, with their contracts.

pub mod serialize;

pub mod text;
pub mod capability;
pub mod revocation;
pub mod quota;
pub mod resource_group;
pub mod capability_system;
pub mod scheduler;
pub mod physical;
pub mod drivers;
pub mod agent_mapping;
pub mod virtual_mem;
pub mod interrupts;
pub mod smp;
pub mod time;
pub mod error;
pub mod error_recovery;
pub mod syscall;
pub mod crypto;
pub mod attestation;
pub mod fabric;
pub mod agent;
pub mod events;
pub mod audit;
pub mod agent_pool;
pub mod allocator;
pub mod lifecycle;
pub mod ai_healing;
pub mod ai_scheduler;
pub mod ai_adaptive;
pub mod exceptions;
pub mod boot_info;
pub mod bootloader;
pub mod ml_client;
pub mod log;
