//! The boot information the bootloader hands to the kernel.

use vstd::prelude::*;

verus! {

/// Magic number of boot information: "AIOS" in ASCII.
pub const BOOT_INFO_MAGIC: u64 = 0x41494F53;

/// Boot information passed from the bootloader.
#[derive(Clone, Copy, PartialEq, Eq, Structural, Debug)]
pub struct BootInfo {
    pub magic: u64,
    pub version: u32,
    pub initramfs_base: u64,
    pub initramfs_size: u64,
    pub memory_map_base: u64,
    pub memory_map_size: u64,
    pub acpi_rsdp: u64,
}

/// Whether `info` carries the boot information magic number.
pub fn boot_info_valid(info: &BootInfo) -> (r: bool)
    ensures
        r == (info.magic == BOOT_INFO_MAGIC),
{
    info.magic == BOOT_INFO_MAGIC
}

/// Keeps the boot information, which must carry the magic number: the
/// kernel halts on any other.
pub fn set_boot_info(slot: &mut Option<BootInfo>, info: BootInfo)
    requires
        info.magic == BOOT_INFO_MAGIC,
    ensures
        *final(slot) == Some(info),
{
    *slot = Some(info);
}

/// The boot information kept, if any.
pub fn get_boot_info(slot: &Option<BootInfo>) -> (r: Option<BootInfo>)
    ensures
        r == *slot,
{
    *slot
}

} // verus!
