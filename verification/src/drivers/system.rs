//! The driver system: the driver bus behind one interface. Bringing up
//! the platform drivers (TPM, SGX, enclaves) is left to the embedding
//! code.

use vstd::prelude::*;
use crate::drivers::DriverError;
use crate::drivers::bus::{DriverBus, bind_driver, bind_device, devices_without};
use crate::drivers::device::Device;
use crate::drivers::driver::Driver;
use crate::drivers::hotplug::HotplugEvent;

verus! {

/// The driver system.
pub struct DriverSystem {
    pub bus: DriverBus,
}

impl DriverSystem {
    pub fn new() -> (s: Self)
        ensures
            s.bus.wf(),
            s.bus.drivers() == Seq::<Driver>::empty(),
            s.bus.devices() == Seq::<Device>::empty(),
            s.bus.bindings() == Map::<u64, u64>::empty(),
            s.bus.next_driver() == 1,
            s.bus.next_device() == 1,
    {
        DriverSystem { bus: DriverBus::new() }
    }

    /// Registers a driver on the bus; see [`DriverBus::register_driver`].
    pub fn register_driver(&mut self, driver: Driver) -> (r: Result<u64, DriverError>)
        requires
            old(self).bus.wf(),
            old(self).bus.next_driver() < u64::MAX,
        ensures
            final(self).bus.wf(),
            driver.name@.len() == 0 ==> r == Err::<u64, DriverError>(DriverError::InvalidDriver)
                && final(self).bus == old(self).bus,
            driver.name@.len() > 0 ==> {
                let id = old(self).bus.next_driver();
                &&& r == Ok::<u64, DriverError>(id)
                &&& final(self).bus.drivers() == old(self).bus.drivers().push(
                    Driver { driver_id: id, ..driver },
                )
                &&& final(self).bus.next_driver() == id + 1
                &&& final(self).bus.devices() == old(self).bus.devices()
                &&& final(self).bus.next_device() == old(self).bus.next_device()
                &&& final(self).bus.bindings() == bind_driver(
                    old(self).bus.bindings(),
                    old(self).bus.devices(),
                    id,
                    driver.device_class,
                )
            },
    {
        self.bus.register_driver(driver)
    }

    /// The devices on the bus; see [`DriverBus::enumerate_devices`].
    pub fn enumerate_devices(&self) -> (r: Vec<Device>)
        ensures
            r@ == self.bus.devices(),
    {
        self.bus.enumerate_devices()
    }

    /// Handles a hotplug event on the bus; see [`DriverBus::handle_hotplug`].
    pub fn handle_hotplug(&mut self, event: HotplugEvent)
        requires
            old(self).bus.wf(),
            old(self).bus.next_device() < u64::MAX,
        ensures
            final(self).bus.wf(),
            final(self).bus.drivers() == old(self).bus.drivers(),
            final(self).bus.next_driver() == old(self).bus.next_driver(),
            match event {
                HotplugEvent::DeviceAdded(device) => {
                    let id = old(self).bus.next_device();
                    &&& final(self).bus.devices() == old(self).bus.devices().push(
                        Device { device_id: id, ..device },
                    )
                    &&& final(self).bus.next_device() == id + 1
                    &&& final(self).bus.bindings() == bind_device(
                        old(self).bus.bindings(),
                        old(self).bus.drivers(),
                        id,
                        device.device_class,
                    )
                },
                HotplugEvent::DeviceRemoved(id) => {
                    &&& final(self).bus.devices() == devices_without(old(self).bus.devices(), id)
                    &&& final(self).bus.next_device() == old(self).bus.next_device()
                    &&& final(self).bus.bindings() == old(self).bus.bindings().remove(id)
                },
            },
    {
        self.bus.handle_hotplug(event)
    }
}

} // verus!
