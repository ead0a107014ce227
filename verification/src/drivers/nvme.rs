//! The NVMe driver: checks of block requests, the controller register
//! values it writes and waits on, and its life cycle. Register accesses
//! and the PCIe BAR lookup are made by the embedding code, which hands
//! their results to [`NvmeDriver::attach`].

use vstd::prelude::*;
use crate::drivers::device::Device;

verus! {

/// Offset of the capabilities register.
pub const NVME_CAP: u64 = 0x00;

/// Offset of the version register.
pub const NVME_VS: u64 = 0x08;

/// Offset of the controller configuration register.
pub const NVME_CC: u64 = 0x14;

/// Offset of the controller status register.
pub const NVME_CSTS: u64 = 0x1C;

/// Offset of the admin queue attributes register.
pub const NVME_AQA: u64 = 0x24;

/// Offset of the admin submission queue base address register.
pub const NVME_ASQ: u64 = 0x28;

/// Offset of the admin completion queue base address register.
pub const NVME_ACQ: u64 = 0x30;

/// Identify command.
pub const NVME_CMD_IDENTIFY: u8 = 0x06;

/// Read command.
pub const NVME_CMD_READ: u8 = 0x02;

/// Write command.
pub const NVME_CMD_WRITE: u8 = 0x01;

/// How many status reads a controller gets to become ready.
pub const READY_TIMEOUT: u32 = 1_000_000;

/// Why the NVMe driver failed.
#[derive(Clone, Copy, PartialEq, Eq, Structural, Debug)]
pub enum DriverError {
    DeviceNotFound,
    InitializationFailed,
    IOError,
}

/// The configuration value that enables the controller.
pub fn enable_config(cc: u32) -> (r: u32)
    ensures
        r == cc | 1,
{
    cc | 1
}

/// The configuration value that disables the controller.
pub fn disable_config(cc: u32) -> (r: u32)
    ensures
        r == cc & !1u32,
{
    cc & !1u32
}

/// Whether the status register says the controller is ready.
pub fn controller_ready(csts: u32) -> (r: bool)
    ensures
        r == (csts & 1 != 0),
{
    csts & 1 != 0
}

/// The largest queue the capabilities allow, in entries.
pub fn max_queue_entries(cap: u64) -> (r: u16)
    ensures
        r == ((cap & 0xFFFF) + 1) as u16,
{
    assert(cap & 0xFFFF <= 0xFFFF) by (bit_vector);
    ((cap & 0xFFFF) + 1) as u16
}

/// The NVMe driver.
pub struct NvmeDriver {
    device: Option<Device>,
    initialized: bool,
    base_address: Option<u64>,
    block_size: u32,
}

impl NvmeDriver {
    /// Whether the controller is enabled.
    pub closed spec fn is_initialized(&self) -> bool {
        self.initialized
    }

    /// The device the driver is attached to.
    pub closed spec fn device(&self) -> Option<Device> {
        self.device
    }

    /// Where the controller's registers are.
    pub closed spec fn base(&self) -> Option<u64> {
        self.base_address
    }

    /// The block size in bytes.
    pub closed spec fn block(&self) -> u32 {
        self.block_size
    }

    pub fn new() -> (d: Self)
        ensures
            !d.is_initialized(),
            d.device() is None,
            d.base() is None,
            d.block() == 4096,
    {
        NvmeDriver { device: None, initialized: false, base_address: None, block_size: 4096 }
    }

    /// Reads the block at `lba` into `buffer`: refused before the
    /// controller is enabled, and for a buffer shorter than a block. No I/O
    /// queue is set up, so the buffer comes back zeroed.
    pub fn read_block(&self, lba: u64, buffer: &mut [u8]) -> (r: Result<(), DriverError>)
        ensures
            r == if !self.is_initialized() {
                Err(DriverError::InitializationFailed)
            } else if old(buffer)@.len() < self.block() {
                Err(DriverError::IOError)
            } else {
                Ok(())
            },
            r is Err ==> final(buffer)@ == old(buffer)@,
            r is Ok ==> final(buffer)@ == Seq::new(old(buffer)@.len(), |i: int| 0u8),
    {
        if !self.initialized {
            return Err(DriverError::InitializationFailed);
        }
        if buffer.len() < self.block_size as usize {
            return Err(DriverError::IOError);
        }
        let mut i: usize = 0;
        while i < buffer.len()
            invariant
                i <= buffer@.len(),
                buffer@.len() == old(buffer)@.len(),
                forall|k: int| 0 <= k < i ==> #[trigger] buffer@[k] == 0u8,
            decreases buffer.len() - i,
        {
            buffer[i] = 0;
            i = i + 1;
        }
        assert(buffer@ =~= Seq::new(old(buffer)@.len(), |i: int| 0u8));
        Ok(())
    }

    /// Writes `buffer` to the block at `lba`: refused before the
    /// controller is enabled, and for a buffer shorter than a block.
    pub fn write_block(&self, lba: u64, buffer: &[u8]) -> (r: Result<(), DriverError>)
        ensures
            r == if !self.is_initialized() {
                Err(DriverError::InitializationFailed)
            } else if buffer@.len() < self.block() {
                Err(DriverError::IOError)
            } else {
                Ok(())
            },
    {
        if !self.initialized {
            return Err(DriverError::InitializationFailed);
        }
        if buffer.len() < self.block_size as usize {
            return Err(DriverError::IOError);
        }
        Ok(())
    }

    /// Whether `device` is an NVMe controller.
    pub fn probe(&self, device: &Device) -> (r: bool)
        ensures
            r == (device.class == 0x01 && device.subclass == 0x08),
    {
        device.class == 0x01 && device.subclass == 0x08
    }

    /// The driver's name.
    pub fn name(&self) -> (s: &'static str)
        ensures
            s@ == seq!['n', 'v', 'm', 'e'],
    {
        proof {
            reveal_strlit("nvme");
        }
        "nvme"
    }

    /// Attaches to `device`, whose first BAR is `bar0` and whose controller
    /// did or did not become ready when enabled: without a BAR the device
    /// is not found; a controller that does not become ready fails.
    pub fn attach(&mut self, device: &Device, bar0: Option<u64>, ready: bool) -> (r: Result<(), DriverError>)
        ensures
            final(self).device() == Some(*device),
            final(self).block() == old(self).block(),
            r == match bar0 {
                None => Err(DriverError::DeviceNotFound),
                Some(_) => if ready {
                    Ok(())
                } else {
                    Err(DriverError::InitializationFailed)
                },
            },
            bar0 is None ==> final(self).base() == old(self).base() && final(self).is_initialized()
                == old(self).is_initialized(),
            bar0 is Some ==> final(self).base() == bar0 && final(self).is_initialized() == (ready
                || old(self).is_initialized()),
    {
        self.device = Some(*device);
        match bar0 {
            None => Err(DriverError::DeviceNotFound),
            Some(bar) => {
                self.base_address = Some(bar);
                if !ready {
                    return Err(DriverError::InitializationFailed);
                }
                self.initialized = true;
                Ok(())
            },
        }
    }

    /// Detaches, after the controller was disabled.
    pub fn detach(&mut self) -> (r: Result<(), DriverError>)
        ensures
            r is Ok,
            final(self).device() is None,
            final(self).base() is None,
            !final(self).is_initialized(),
            final(self).block() == old(self).block(),
    {
        self.initialized = false;
        self.device = None;
        self.base_address = None;
        Ok(())
    }
}

} // verus!
