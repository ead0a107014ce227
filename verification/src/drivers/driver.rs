//! Drivers known to the driver bus.

use vstd::prelude::*;

verus! {

/// Version of a driver.
#[derive(Clone, Copy, Debug)]
pub struct DriverVersion {
    pub major: u32,
    pub minor: u32,
    pub patch: u32,
}

/// Failure of a driver's own entry points.
#[derive(Clone, Copy, PartialEq, Eq, Structural, Debug)]
pub enum DriverError {
    InitFailed,
    ProbeFailed,
    RemoveFailed,
}

/// A driver. Its entry points are handles that the embedding code maps to
/// the functions they stand for.
pub struct Driver {
    pub driver_id: u64,
    pub name: String,
    pub version: DriverVersion,
    pub device_class: u32,
    pub init: u64,
    pub probe: u64,
    pub remove: u64,
}

} // verus!
