//! Hotplug events.

use vstd::prelude::*;
use crate::drivers::device::Device;

verus! {

/// A device arriving on or leaving the bus.
pub enum HotplugEvent {
    DeviceAdded(Device),
    DeviceRemoved(u64),
}

} // verus!
