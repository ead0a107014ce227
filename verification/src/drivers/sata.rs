//! The SATA (ATA PIO) driver: checks of block requests, the register
//! values that address a sector, how sector data travels as 16-bit words,
//! and the status bits the driver waits on. The port accesses themselves
//! are made by the embedding code.

use vstd::prelude::*;
use crate::drivers::device::Device;

verus! {

/// Sector size in bytes.
pub const SECTOR_SIZE: usize = 512;

/// Data port.
pub const SATA_DATA: u16 = 0x1F0;

/// Error port.
pub const SATA_ERROR: u16 = 0x1F1;

/// Sector-count port.
pub const SATA_SECTOR_COUNT: u16 = 0x1F2;

/// Low LBA byte port.
pub const SATA_LBA_LOW: u16 = 0x1F3;

/// Middle LBA byte port.
pub const SATA_LBA_MID: u16 = 0x1F4;

/// High LBA byte port.
pub const SATA_LBA_HIGH: u16 = 0x1F5;

/// Drive-select port.
pub const SATA_DEVICE: u16 = 0x1F6;

/// Command port.
pub const SATA_COMMAND: u16 = 0x1F7;

/// Status port.
pub const SATA_STATUS: u16 = 0x1F7;

/// Read sectors.
pub const CMD_READ_SECTORS: u8 = 0x20;

/// Write sectors.
pub const CMD_WRITE_SECTORS: u8 = 0x30;

/// Identify the drive.
pub const CMD_IDENTIFY: u8 = 0xEC;

/// Flush the write cache.
pub const CMD_FLUSH_CACHE: u8 = 0xE7;

/// Why the SATA driver failed.
#[derive(Clone, Copy, PartialEq, Eq, Structural, Debug)]
pub enum DriverError {
    DeviceNotFound,
    InitializationFailed,
    IOError,
}

/// The register values that start a one-sector command.
#[derive(Clone, Copy, PartialEq, Eq, Structural, Debug)]
pub struct SataCommand {
    pub sector_count: u8,
    pub lba_low: u8,
    pub lba_mid: u8,
    pub lba_high: u8,
    pub device: u8,
    pub command: u8,
}

/// The command `command` on the sector at `lba`, in LBA mode.
pub open spec fn sector_command(lba: u64, command: u8) -> SataCommand {
    SataCommand {
        sector_count: 1,
        lba_low: (lba & 0xFF) as u8,
        lba_mid: ((lba >> 8) & 0xFF) as u8,
        lba_high: ((lba >> 16) & 0xFF) as u8,
        device: (0xE0u64 | ((lba >> 24) & 0x0F)) as u8,
        command,
    }
}

fn make_command(lba: u64, command: u8) -> (c: SataCommand)
    ensures
        c == sector_command(lba, command),
{
    SataCommand {
        sector_count: 1,
        lba_low: (lba & 0xFF) as u8,
        lba_mid: ((lba >> 8) & 0xFF) as u8,
        lba_high: ((lba >> 16) & 0xFF) as u8,
        device: (0xE0u64 | ((lba >> 24) & 0x0F)) as u8,
        command,
    }
}

/// Whether the drive is ready: not busy and requesting data.
pub fn drive_ready(status: u8) -> (r: bool)
    ensures
        r == ((status & 0x80) == 0 && (status & 0x08) != 0),
{
    (status & 0x80) == 0 && (status & 0x08) != 0
}

/// Whether waiting for data is over: data is ready without error, or an
/// error occurred.
pub fn data_wait_over(status: u8) -> (r: bool)
    ensures
        r == (((status & 0x08) != 0 && (status & 0x01) == 0) || (status & 0x01) != 0),
{
    ((status & 0x08) != 0 && (status & 0x01) == 0) || (status & 0x01) != 0
}

/// The SATA driver.
pub struct SataDriver {
    device: Option<Device>,
    initialized: bool,
}

impl SataDriver {
    /// Whether the controller is set up.
    pub closed spec fn is_initialized(&self) -> bool {
        self.initialized
    }

    /// The device the driver is attached to.
    pub closed spec fn device(&self) -> Option<Device> {
        self.device
    }

    pub fn new() -> (d: Self)
        ensures
            !d.is_initialized(),
            d.device() is None,
    {
        SataDriver { device: None, initialized: false }
    }

    /// The command that reads the sector at `lba` into a buffer of
    /// `buffer_len` bytes: refused before setup, and for a buffer shorter
    /// than a sector.
    pub fn read_block_command(&self, lba: u64, buffer_len: usize) -> (r: Result<SataCommand, DriverError>)
        ensures
            r == if !self.is_initialized() {
                Err(DriverError::InitializationFailed)
            } else if buffer_len < SECTOR_SIZE {
                Err(DriverError::IOError)
            } else {
                Ok(sector_command(lba, CMD_READ_SECTORS))
            },
    {
        if !self.initialized {
            return Err(DriverError::InitializationFailed);
        }
        if buffer_len < SECTOR_SIZE {
            return Err(DriverError::IOError);
        }
        Ok(make_command(lba, CMD_READ_SECTORS))
    }

    /// The command that writes the first sector of `buffer` to `lba`, and
    /// the 256 data words to send, low byte first: refused before setup,
    /// and for a buffer shorter than a sector.
    pub fn write_block_command(&self, lba: u64, buffer: &[u8]) -> (r: Result<(SataCommand, Vec<u16>), DriverError>)
        ensures
            !self.is_initialized() ==> r is Err && r->Err_0 == DriverError::InitializationFailed,
            self.is_initialized() && buffer@.len() < SECTOR_SIZE ==> r is Err && r->Err_0
                == DriverError::IOError,
            self.is_initialized() && buffer@.len() >= SECTOR_SIZE ==> r is Ok && r->Ok_0.0
                == sector_command(lba, CMD_WRITE_SECTORS) && words_of(buffer@, r->Ok_0.1@),
    {
        if !self.initialized {
            return Err(DriverError::InitializationFailed);
        }
        if buffer.len() < SECTOR_SIZE {
            return Err(DriverError::IOError);
        }
        let words = sector_words(buffer);
        Ok((make_command(lba, CMD_WRITE_SECTORS), words))
    }

    /// Whether `device` is a SATA controller.
    pub fn probe(&self, device: &Device) -> (r: bool)
        ensures
            r == (device.class == 0x01 && device.subclass == 0x06),
    {
        device.class == 0x01 && device.subclass == 0x06
    }

    /// The driver's name.
    pub fn name(&self) -> (s: &'static str)
        ensures
            s@ == seq!['s', 'a', 't', 'a'],
    {
        proof {
            reveal_strlit("sata");
        }
        "sata"
    }

    /// Attaches to `device`.
    pub fn attach(&mut self, device: &Device) -> (r: Result<(), DriverError>)
        ensures
            r is Ok,
            final(self).device() == Some(*device),
            final(self).is_initialized(),
    {
        self.device = Some(*device);
        self.initialized = true;
        Ok(())
    }

    /// Detaches.
    pub fn detach(&mut self) -> (r: Result<(), DriverError>)
        ensures
            r is Ok,
            final(self).device() is None,
            !final(self).is_initialized(),
    {
        self.initialized = false;
        self.device = None;
        Ok(())
    }
}

/// Whether `words` are the 256 words of the first sector of `bytes`, each
/// made of two bytes, low byte first.
pub open spec fn words_of(bytes: Seq<u8>, words: Seq<u16>) -> bool {
    &&& words.len() == SECTOR_SIZE / 2
    &&& forall|i: int|
        0 <= i < SECTOR_SIZE / 2 ==> #[trigger] words[i] == bytes[2 * i] + 256 * bytes[2 * i + 1]
}

/// The 256 data words of the first sector of `buffer`.
pub fn sector_words(buffer: &[u8]) -> (words: Vec<u16>)
    requires
        buffer@.len() >= SECTOR_SIZE,
    ensures
        words_of(buffer@, words@),
{
    let mut words: Vec<u16> = Vec::new();
    let mut i: usize = 0;
    while i < SECTOR_SIZE / 2
        invariant
            i <= SECTOR_SIZE / 2,
            buffer@.len() >= SECTOR_SIZE,
            words@.len() == i,
            forall|k: int| 0 <= k < i ==> #[trigger] words@[k] == buffer@[2 * k] + 256 * buffer@[2 * k + 1],
        decreases SECTOR_SIZE / 2 - i,
    {
        let lo = buffer[i * 2];
        let hi = buffer[i * 2 + 1];
        let w = (lo as u16) | ((hi as u16) << 8);
        assert(((lo as u16) | ((hi as u16) << 8)) == lo + 256 * hi) by (bit_vector);
        words.push(w);
        i = i + 1;
    }
    words
}

/// Stores the 256 data words of a sector into the first 512 bytes of
/// `buffer`, low byte first; the rest is left alone.
pub fn store_sector(words: &Vec<u16>, buffer: &mut [u8])
    requires
        words@.len() >= SECTOR_SIZE / 2,
        old(buffer)@.len() >= SECTOR_SIZE,
    ensures
        final(buffer)@.len() == old(buffer)@.len(),
        forall|i: int|
            0 <= i < SECTOR_SIZE / 2 ==> #[trigger] final(buffer)@[2 * i] == (words@[i] & 0xFF) as u8
                && final(buffer)@[2 * i + 1] == (words@[i] >> 8) as u8,
        forall|k: int| SECTOR_SIZE <= k < old(buffer)@.len() ==> #[trigger] final(buffer)@[k] == old(buffer)@[k],
{
    let mut i: usize = 0;
    while i < SECTOR_SIZE / 2
        invariant
            i <= SECTOR_SIZE / 2,
            words@.len() >= SECTOR_SIZE / 2,
            buffer@.len() == old(buffer)@.len(),
            buffer@.len() >= SECTOR_SIZE,
            forall|k: int|
                0 <= k < i ==> #[trigger] buffer@[2 * k] == (words@[k] & 0xFF) as u8 && buffer@[2 * k + 1]
                    == (words@[k] >> 8) as u8,
            forall|k: int| 2 * i <= k < old(buffer)@.len() ==> #[trigger] buffer@[k] == old(buffer)@[k],
        decreases SECTOR_SIZE / 2 - i,
    {
        let w = words[i];
        buffer[i * 2] = (w & 0xFF) as u8;
        buffer[i * 2 + 1] = (w >> 8) as u8;
        i = i + 1;
    }
}

} // verus!
