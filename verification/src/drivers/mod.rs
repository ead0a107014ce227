//! The device and driver model: drivers, devices, the bus that binds them,
//! hotplug, and the platform drivers.

use vstd::prelude::*;

pub mod acpi_tree;
pub mod bus;
pub mod device;
pub mod driver;
pub mod enclave;
pub mod ethernet;
pub mod hotplug;
pub mod nvme;
pub mod sata;
pub mod sgx;
pub mod system;
pub mod tpm;

verus! {

/// Failure of a bus operation.
#[derive(Clone, Copy, PartialEq, Eq, Structural, Debug)]
pub enum DriverError {
    InvalidDriver,
    DeviceNotFound,
    AlreadyBound,
    VersionMismatch,
}

} // verus!
