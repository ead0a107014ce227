//! The driver bus: registered drivers and devices, and which driver each
//! device is bound to.
//!
//! Drivers and devices are kept in the order of their identifiers, which the
//! bus hands out in increasing order. A driver binds to at most one device:
//! a new driver takes the first device of its class, and a new device takes
//! the first unbound driver of its class.

use vstd::prelude::*;
use std::collections::BTreeMap;
use crate::drivers::device::Device;
use crate::drivers::driver::Driver;
use crate::drivers::hotplug::HotplugEvent;
use crate::drivers::DriverError;

verus! {

broadcast use vstd::std_specs::btree::group_btree_axioms;

/// Whether some device is bound to driver `drv`.
pub open spec fn driver_bound(b: Map<u64, u64>, drv: u64) -> bool {
    exists|d: u64| #[trigger] b.contains_key(d) && b[d] == drv
}

/// Index of the first device of class `class` from index `i` on.
pub open spec fn first_device_of_class(devs: Seq<Device>, class: u32, i: int) -> Option<int>
    decreases devs.len() - i,
{
    if i < 0 || i >= devs.len() {
        None
    } else if devs[i].device_class == class {
        Some(i)
    } else {
        first_device_of_class(devs, class, i + 1)
    }
}

/// Index of the first unbound driver of class `class` from index `i` on.
pub open spec fn first_free_driver(drvs: Seq<Driver>, b: Map<u64, u64>, class: u32, i: int) -> Option<
    int,
>
    decreases drvs.len() - i,
{
    if i < 0 || i >= drvs.len() {
        None
    } else if !driver_bound(b, drvs[i].driver_id) && drvs[i].device_class == class {
        Some(i)
    } else {
        first_free_driver(drvs, b, class, i + 1)
    }
}

/// Index of the device with identifier `id`, searching from index `i` on.
pub open spec fn device_index(devs: Seq<Device>, id: u64, i: int) -> Option<int>
    decreases devs.len() - i,
{
    if i < 0 || i >= devs.len() {
        None
    } else if devs[i].device_id == id {
        Some(i)
    } else {
        device_index(devs, id, i + 1)
    }
}

/// The bindings after driver `drv` of class `class` looked for a device.
pub open spec fn bind_driver(b: Map<u64, u64>, devs: Seq<Device>, drv: u64, class: u32) -> Map<
    u64,
    u64,
> {
    if driver_bound(b, drv) {
        b
    } else {
        match first_device_of_class(devs, class, 0) {
            Some(i) => b.insert(devs[i].device_id, drv),
            None => b,
        }
    }
}

/// The bindings after device `dev` of class `class` looked for a driver.
pub open spec fn bind_device(b: Map<u64, u64>, drvs: Seq<Driver>, dev: u64, class: u32) -> Map<
    u64,
    u64,
> {
    match first_free_driver(drvs, b, class, 0) {
        Some(i) => b.insert(dev, drvs[i].driver_id),
        None => b,
    }
}

/// Whether the device identifiers increase along `devs`.
pub open spec fn devices_ordered(devs: Seq<Device>) -> bool {
    forall|i: int, j: int| 0 <= i < j < devs.len() ==> devs[i].device_id < devs[j].device_id
}

/// Whether the driver identifiers increase along `drvs`.
pub open spec fn drivers_ordered(drvs: Seq<Driver>) -> bool {
    forall|i: int, j: int| 0 <= i < j < drvs.len() ==> drvs[i].driver_id < drvs[j].driver_id
}

/// `devs` without the device whose identifier is `id`.
pub open spec fn devices_without(devs: Seq<Device>, id: u64) -> Seq<Device>
    decreases devs.len(),
{
    if devs.len() == 0 {
        Seq::empty()
    } else if devs.last().device_id == id {
        devices_without(devs.drop_last(), id)
    } else {
        devices_without(devs.drop_last(), id).push(devs.last())
    }
}

/// Manages drivers and devices.
pub struct DriverBus {
    drivers: Vec<Driver>,
    devices: Vec<Device>,
    bindings: BTreeMap<u64, u64>,
    next_driver_id: u64,
    next_device_id: u64,
}

proof fn lemma_first_device_found(devs: Seq<Device>, class: u32, i: int)
    requires
        first_device_of_class(devs, class, i) is Some,
    ensures
        ({
            let k = first_device_of_class(devs, class, i)->0;
            &&& i <= k < devs.len()
            &&& devs[k].device_class == class
        }),
    decreases devs.len() - i,
{
    if i >= 0 && i < devs.len() && devs[i].device_class != class {
        lemma_first_device_found(devs, class, i + 1);
    }
}

proof fn lemma_device_index_found(devs: Seq<Device>, id: u64, i: int)
    requires
        device_index(devs, id, i) is Some,
    ensures
        ({
            let k = device_index(devs, id, i)->0;
            &&& i <= k < devs.len()
            &&& devs[k].device_id == id
        }),
    decreases devs.len() - i,
{
    if i >= 0 && i < devs.len() && devs[i].device_id != id {
        lemma_device_index_found(devs, id, i + 1);
    }
}

proof fn lemma_device_index_absent(devs: Seq<Device>, id: u64, i: int)
    requires
        0 <= i,
        device_index(devs, id, i) is None,
    ensures
        forall|k: int| i <= k < devs.len() ==> devs[k].device_id != id,
    decreases devs.len() - i,
{
    if i < devs.len() {
        lemma_device_index_absent(devs, id, i + 1);
    }
}

proof fn lemma_devices_without_ids(devs: Seq<Device>, id: u64)
    ensures
        forall|k: int|
            0 <= k < devices_without(devs, id).len() ==> exists|j: int|
                0 <= j < devs.len() && devs[j] == #[trigger] devices_without(devs, id)[k],
        forall|k: int|
            0 <= k < devices_without(devs, id).len() ==> #[trigger] devices_without(
                devs,
                id,
            )[k].device_id != id,
        forall|j: int|
            0 <= j < devs.len() && devs[j].device_id != id ==> devices_without(
                devs,
                id,
            ).contains(#[trigger] devs[j]),
        devices_ordered(devs) ==> devices_ordered(devices_without(devs, id)),
    decreases devs.len(),
{
    if devs.len() > 0 {
        let prev = devs.drop_last();
        lemma_devices_without_ids(prev, id);
        let r = devices_without(devs, id);
        let pr = devices_without(prev, id);
        assert forall|k: int| 0 <= k < r.len() implies exists|j: int|
            0 <= j < devs.len() && devs[j] == #[trigger] r[k] by {
            if k < pr.len() {
                let j = choose|j: int| 0 <= j < prev.len() && prev[j] == pr[k];
                assert(devs[j] == r[k]);
            } else {
                assert(devs[devs.len() - 1] == r[k]);
            }
        }
        assert forall|j: int| 0 <= j < devs.len() && devs[j].device_id != id implies r.contains(
            #[trigger] devs[j],
        ) by {
            if j < devs.len() - 1 {
                assert(prev[j] == devs[j]);
                let k = choose|k: int| 0 <= k < pr.len() && pr[k] == prev[j];
                assert(r[k] == devs[j]);
            } else {
                assert(r[r.len() - 1] == devs[j]);
            }
        }
        if devices_ordered(devs) {
            assert(devices_ordered(prev));
            assert forall|a: int, b: int| 0 <= a < b < r.len() implies r[a].device_id
                < r[b].device_id by {
                if b == pr.len() && devs.last().device_id != id {
                    let ja = choose|j: int| 0 <= j < prev.len() && prev[j] == pr[a];
                    assert(devs[ja] == r[a]);
                }
            }
        }
    }
}

impl DriverBus {
    /// Registered drivers, by increasing identifier.
    pub closed spec fn drivers(&self) -> Seq<Driver> {
        self.drivers@
    }

    /// Registered devices, by increasing identifier.
    pub closed spec fn devices(&self) -> Seq<Device> {
        self.devices@
    }

    /// The driver each bound device is bound to.
    pub closed spec fn bindings(&self) -> Map<u64, u64> {
        self.bindings@
    }

    /// The identifier the next driver gets.
    pub closed spec fn next_driver(&self) -> u64 {
        self.next_driver_id
    }

    /// The identifier the next device gets.
    pub closed spec fn next_device(&self) -> u64 {
        self.next_device_id
    }

    /// The bus invariant: identifiers increase and stay below the next one
    /// to be handed out, and only registered devices are bound.
    pub closed spec fn wf(&self) -> bool {
        &&& devices_ordered(self.devices@)
        &&& drivers_ordered(self.drivers@)
        &&& forall|i: int|
            0 <= i < self.devices@.len() ==> #[trigger] self.devices@[i].device_id
                < self.next_device_id
        &&& forall|i: int|
            0 <= i < self.drivers@.len() ==> #[trigger] self.drivers@[i].driver_id
                < self.next_driver_id
        &&& forall|d: u64|
            #[trigger] self.bindings@.contains_key(d) ==> device_index(self.devices@, d, 0) is Some
    }

    pub fn new() -> (b: Self)
        ensures
            b.wf(),
            b.drivers() == Seq::<Driver>::empty(),
            b.devices() == Seq::<Device>::empty(),
            b.bindings() == Map::<u64, u64>::empty(),
            b.next_driver() == 1,
            b.next_device() == 1,
    {
        DriverBus {
            drivers: Vec::new(),
            devices: Vec::new(),
            bindings: BTreeMap::new(),
            next_driver_id: 1,
            next_device_id: 1,
        }
    }

    /// Whether some device is bound to driver `drv`.
    fn is_driver_bound(&self, drv: u64) -> (r: bool)
        requires
            self.wf(),
        ensures
            r == driver_bound(self.bindings@, drv),
    {
        let mut i: usize = 0;
        while i < self.devices.len()
            invariant
                self.wf(),
                i <= self.devices.len(),
                forall|k: int|
                    0 <= k < i ==> !(self.bindings@.contains_key(#[trigger] self.devices@[k].device_id)
                        && self.bindings@[self.devices@[k].device_id] == drv),
            decreases self.devices.len() - i,
        {
            let id = self.devices[i].device_id;
            match self.bindings.get(&id) {
                Some(d) => {
                    if *d == drv {
                        assert(self.bindings@.contains_key(id) && self.bindings@[id] == drv);
                        return true;
                    }
                },
                None => {},
            }
            i = i + 1;
        }
        proof {
            if driver_bound(self.bindings@, drv) {
                let d = choose|d: u64| #[trigger] self.bindings@.contains_key(d) && self.bindings@[d]
                    == drv;
                lemma_device_index_found(self.devices@, d, 0);
                let k = device_index(self.devices@, d, 0)->0;
                assert(self.devices@[k].device_id == d);
            }
        }
        false
    }

    /// Binds driver `drv` of class `class` to the first device of its class,
    /// unless it is bound already.
    fn try_bind_driver(&mut self, drv: u64, class: u32)
        requires
            old(self).wf(),
        ensures
            final(self).wf(),
            final(self).bindings() == bind_driver(old(self).bindings(), old(self).devices(), drv, class),
            final(self).drivers() == old(self).drivers(),
            final(self).devices() == old(self).devices(),
            final(self).next_driver() == old(self).next_driver(),
            final(self).next_device() == old(self).next_device(),
    {
        if self.is_driver_bound(drv) {
            return ;
        }
        let mut i: usize = 0;
        while i < self.devices.len()
            invariant
                *self == *old(self),
                self.wf(),
                !driver_bound(self.bindings@, drv),
                i <= self.devices.len(),
                first_device_of_class(self.devices@, class, 0) == first_device_of_class(
                    self.devices@,
                    class,
                    i as int,
                ),
            decreases self.devices.len() - i,
        {
            if self.devices[i].device_class == class {
                let dev = self.devices[i].device_id;
                self.bindings.insert(dev, drv);
                proof {
                    assert(device_index(self.devices@, dev, 0) is Some) by {
                        lemma_device_index_first(self.devices@, i as int);
                    }
                }
                return ;
            }
            i = i + 1;
        }
    }

    /// Binds device `dev` of class `class` to the first unbound driver of
    /// its class.
    fn try_bind_device(&mut self, dev: u64, class: u32)
        requires
            old(self).wf(),
            device_index(old(self).devices(), dev, 0) is Some,
        ensures
            final(self).wf(),
            final(self).bindings() == bind_device(old(self).bindings(), old(self).drivers(), dev, class),
            final(self).drivers() == old(self).drivers(),
            final(self).devices() == old(self).devices(),
            final(self).next_driver() == old(self).next_driver(),
            final(self).next_device() == old(self).next_device(),
    {
        let mut i: usize = 0;
        while i < self.drivers.len()
            invariant
                *self == *old(self),
                self.wf(),
                device_index(self.devices@, dev, 0) is Some,
                i <= self.drivers.len(),
                first_free_driver(self.drivers@, self.bindings@, class, 0) == first_free_driver(
                    self.drivers@,
                    self.bindings@,
                    class,
                    i as int,
                ),
            decreases self.drivers.len() - i,
        {
            let drv = self.drivers[i].driver_id;
            let bound = self.is_driver_bound(drv);
            if !bound && self.drivers[i].device_class == class {
                self.bindings.insert(dev, drv);
                return ;
            }
            i = i + 1;
        }
    }

    /// Registers a driver under the next driver identifier and binds it to
    /// the first device of its class if it is not bound yet. A driver
    /// without a name is refused.
    pub fn register_driver(&mut self, driver: Driver) -> (r: Result<u64, DriverError>)
        requires
            old(self).wf(),
            old(self).next_driver() < u64::MAX,
        ensures
            final(self).wf(),
            driver.name@.len() == 0 ==> r == Err::<u64, DriverError>(DriverError::InvalidDriver)
                && *final(self) == *old(self),
            driver.name@.len() > 0 ==> {
                let id = old(self).next_driver();
                &&& r == Ok::<u64, DriverError>(id)
                &&& final(self).drivers() == old(self).drivers().push(
                    Driver { driver_id: id, ..driver },
                )
                &&& final(self).next_driver() == id + 1
                &&& final(self).devices() == old(self).devices()
                &&& final(self).next_device() == old(self).next_device()
                &&& final(self).bindings() == bind_driver(
                    old(self).bindings(),
                    old(self).devices(),
                    id,
                    driver.device_class,
                )
            },
    {
        if driver.name.as_str().is_empty() {
            return Err(DriverError::InvalidDriver);
        }
        let driver_id = self.next_driver_id;
        self.next_driver_id = driver_id + 1;
        let class = driver.device_class;
        let mut driver = driver;
        driver.driver_id = driver_id;
        self.drivers.push(driver);
        self.try_bind_driver(driver_id, class);
        Ok(driver_id)
    }

    /// The driver bound to `device_id`, if any.
    pub fn get_driver_for_device(&self, device_id: u64) -> (r: Option<u64>)
        ensures
            r == if self.bindings().contains_key(device_id) {
                Some(self.bindings()[device_id])
            } else {
                None::<u64>
            },
    {
        match self.bindings.get(&device_id) {
            Some(d) => Some(*d),
            None => None,
        }
    }

    /// A copy of the device registered as `device_id`, if any.
    pub fn get_device(&self, device_id: u64) -> (r: Option<Device>)
        ensures
            r == match device_index(self.devices(), device_id, 0) {
                Some(i) => Some(self.devices()[i]),
                None => None::<Device>,
            },
    {
        let mut i: usize = 0;
        while i < self.devices.len()
            invariant
                i <= self.devices.len(),
                device_index(self.devices@, device_id, 0) == device_index(
                    self.devices@,
                    device_id,
                    i as int,
                ),
            decreases self.devices.len() - i,
        {
            if self.devices[i].device_id == device_id {
                return Some(self.devices[i]);
            }
            i = i + 1;
        }
        None
    }

    /// Registers a device under the next device identifier and binds it to
    /// the first unbound driver of its class.
    pub fn register_device(&mut self, device: Device) -> (id: u64)
        requires
            old(self).wf(),
            old(self).next_device() < u64::MAX,
        ensures
            final(self).wf(),
            id == old(self).next_device(),
            final(self).devices() == old(self).devices().push(Device { device_id: id, ..device }),
            final(self).next_device() == id + 1,
            final(self).drivers() == old(self).drivers(),
            final(self).next_driver() == old(self).next_driver(),
            final(self).bindings() == bind_device(
                old(self).bindings(),
                old(self).drivers(),
                id,
                device.device_class,
            ),
    {
        let device_id = self.next_device_id;
        self.next_device_id = device_id + 1;
        let mut device = device;
        device.device_id = device_id;
        let ghost old_devs = self.devices@;
        self.devices.push(device);
        proof {
            assert forall|d: u64| #[trigger] self.bindings@.contains_key(d) implies device_index(
                self.devices@,
                d,
                0,
            ) is Some by {
                lemma_device_index_prefix(old_devs, device, d, 0);
            }
            lemma_device_index_last(self.devices@, device_id);
        }
        self.try_bind_device(device_id, device.device_class);
        device_id
    }

    /// A copy of every registered device, by increasing identifier.
    pub fn enumerate_devices(&self) -> (r: Vec<Device>)
        ensures
            r@ == self.devices(),
    {
        let mut r: Vec<Device> = Vec::new();
        let mut i: usize = 0;
        while i < self.devices.len()
            invariant
                i <= self.devices.len(),
                r@ == self.devices@.subrange(0, i as int),
            decreases self.devices.len() - i,
        {
            r.push(self.devices[i]);
            i = i + 1;
        }
        r
    }

    /// Handles a hotplug event: a new device is registered and bound; a
    /// removed device is forgotten together with its binding.
    pub fn handle_hotplug(&mut self, event: HotplugEvent)
        requires
            old(self).wf(),
            old(self).next_device() < u64::MAX,
        ensures
            final(self).wf(),
            final(self).drivers() == old(self).drivers(),
            final(self).next_driver() == old(self).next_driver(),
            match event {
                HotplugEvent::DeviceAdded(device) => {
                    let id = old(self).next_device();
                    &&& final(self).devices() == old(self).devices().push(
                        Device { device_id: id, ..device },
                    )
                    &&& final(self).next_device() == id + 1
                    &&& final(self).bindings() == bind_device(
                        old(self).bindings(),
                        old(self).drivers(),
                        id,
                        device.device_class,
                    )
                },
                HotplugEvent::DeviceRemoved(id) => {
                    &&& final(self).devices() == devices_without(old(self).devices(), id)
                    &&& final(self).next_device() == old(self).next_device()
                    &&& final(self).bindings() == old(self).bindings().remove(id)
                },
            },
    {
        match event {
            HotplugEvent::DeviceAdded(device) => {
                self.register_device(device);
            },
            HotplugEvent::DeviceRemoved(device_id) => {
                let mut kept: Vec<Device> = Vec::new();
                let mut i: usize = 0;
                while i < self.devices.len()
                    invariant
                        *self == *old(self),
                        i <= self.devices.len(),
                        kept@ == devices_without(self.devices@.subrange(0, i as int), device_id),
                    decreases self.devices.len() - i,
                {
                    proof {
                        assert(self.devices@.subrange(0, i as int + 1).drop_last()
                            =~= self.devices@.subrange(0, i as int));
                    }
                    if self.devices[i].device_id != device_id {
                        kept.push(self.devices[i]);
                    }
                    i = i + 1;
                }
                proof {
                    assert(self.devices@.subrange(0, self.devices@.len() as int) =~= self.devices@);
                    lemma_devices_without_ids(self.devices@, device_id);
                }
                let ghost old_devs = self.devices@;
                self.devices = kept;
                self.bindings.remove(&device_id);
                proof {
                    assert forall|i: int|
                        0 <= i < self.devices@.len() implies #[trigger] self.devices@[i].device_id
                        < self.next_device_id by {
                        let j = choose|j: int|
                            0 <= j < old_devs.len() && old_devs[j] == self.devices@[i];
                    }
                    assert forall|d: u64| #[trigger] self.bindings@.contains_key(d) implies device_index(
                        self.devices@,
                        d,
                        0,
                    ) is Some by {
                        lemma_device_index_found(old_devs, d, 0);
                        let j = device_index(old_devs, d, 0)->0;
                        assert(self.devices@.contains(old_devs[j]));
                        let k = choose|k: int| 0 <= k < self.devices@.len() && self.devices@[k] == old_devs[j];
                        lemma_device_index_reaches(self.devices@, d, k);
                    }
                }
            },
        }
    }
}

/// The device at index `k` is found by a search from the start, or an
/// earlier one with the same identifier is.
proof fn lemma_device_index_reaches(devs: Seq<Device>, id: u64, k: int)
    requires
        0 <= k < devs.len(),
        devs[k].device_id == id,
    ensures
        device_index(devs, id, 0) is Some,
{
    lemma_device_index_reaches_from(devs, id, 0, k);
}

proof fn lemma_device_index_reaches_from(devs: Seq<Device>, id: u64, i: int, k: int)
    requires
        0 <= i <= k < devs.len(),
        devs[k].device_id == id,
    ensures
        device_index(devs, id, i) is Some,
    decreases k - i,
{
    if devs[i].device_id != id {
        lemma_device_index_reaches_from(devs, id, i + 1, k);
    }
}

proof fn lemma_device_index_first(devs: Seq<Device>, k: int)
    requires
        0 <= k < devs.len(),
    ensures
        device_index(devs, devs[k].device_id, 0) is Some,
{
    lemma_device_index_reaches(devs, devs[k].device_id, k);
}

proof fn lemma_device_index_prefix(devs: Seq<Device>, extra: Device, id: u64, i: int)
    requires
        0 <= i,
        device_index(devs, id, i) is Some,
    ensures
        device_index(devs.push(extra), id, i) is Some,
    decreases devs.len() - i,
{
    lemma_device_index_found(devs, id, i);
    let k = device_index(devs, id, i)->0;
    lemma_device_index_reaches_from(devs.push(extra), id, i, k);
}

proof fn lemma_device_index_last(devs: Seq<Device>, id: u64)
    requires
        devs.len() > 0,
        devs.last().device_id == id,
    ensures
        device_index(devs, id, 0) is Some,
{
    lemma_device_index_reaches(devs, id, devs.len() - 1);
}

/// Whether no two devices are bound to the same driver.
pub open spec fn one_device_per_driver(b: Map<u64, u64>) -> bool {
    forall|d1: u64, d2: u64|
        #[trigger] b.contains_key(d1) && #[trigger] b.contains_key(d2) && d1 != d2 ==> b[d1]
            != b[d2]
}

/// Binding a new driver never gives one driver two devices.
pub proof fn law_driver_binding_keeps_one_device_per_driver(
    b: Map<u64, u64>,
    devs: Seq<Device>,
    drv: u64,
    class: u32,
)
    requires
        one_device_per_driver(b),
    ensures
        one_device_per_driver(bind_driver(b, devs, drv, class)),
{
    if !driver_bound(b, drv) {
        if let Some(i) = first_device_of_class(devs, class, 0) {
            let nb = b.insert(devs[i].device_id, drv);
            assert forall|d1: u64, d2: u64|
                #[trigger] nb.contains_key(d1) && #[trigger] nb.contains_key(d2) && d1
                    != d2 implies nb[d1] != nb[d2] by {
                if d1 != devs[i].device_id && d2 != devs[i].device_id {
                } else if d1 == devs[i].device_id {
                    assert(!(b.contains_key(d2) && b[d2] == drv));
                } else {
                    assert(!(b.contains_key(d1) && b[d1] == drv));
                }
            }
        }
    }
}

/// Binding a new device never gives one driver two devices.
pub proof fn law_device_binding_keeps_one_device_per_driver(
    b: Map<u64, u64>,
    drvs: Seq<Driver>,
    dev: u64,
    class: u32,
)
    requires
        one_device_per_driver(b),
        !b.contains_key(dev),
    ensures
        one_device_per_driver(bind_device(b, drvs, dev, class)),
{
    if let Some(i) = first_free_driver(drvs, b, class, 0) {
        lemma_free_driver_found(drvs, b, class, 0);
        let drv = drvs[i].driver_id;
        let nb = b.insert(dev, drv);
        assert forall|d1: u64, d2: u64|
            #[trigger] nb.contains_key(d1) && #[trigger] nb.contains_key(d2) && d1
                != d2 implies nb[d1] != nb[d2] by {
            if d1 == dev {
                assert(!(b.contains_key(d2) && b[d2] == drv));
            } else if d2 == dev {
                assert(!(b.contains_key(d1) && b[d1] == drv));
            }
        }
    }
}

proof fn lemma_free_driver_found(drvs: Seq<Driver>, b: Map<u64, u64>, class: u32, i: int)
    requires
        first_free_driver(drvs, b, class, i) is Some,
    ensures
        ({
            let k = first_free_driver(drvs, b, class, i)->0;
            &&& i <= k < drvs.len()
            &&& !driver_bound(b, drvs[k].driver_id)
            &&& drvs[k].device_class == class
        }),
    decreases drvs.len() - i,
{
    if i >= 0 && i < drvs.len() && !(!driver_bound(b, drvs[i].driver_id) && drvs[i].device_class
        == class) {
        lemma_free_driver_found(drvs, b, class, i + 1);
    }
}

} // verus!
