//! The bootloader's decisions: how it boots, the boot information it
//! hands to the kernel, and the stages that the platform does not provide
//! yet (UEFI, signatures, the initramfs), which answer as such.

use vstd::prelude::*;
use crate::boot_info::{BootInfo, BOOT_INFO_MAGIC};

verus! {

/// How the machine was booted.
#[derive(Clone, Copy, PartialEq, Eq, Structural, Debug)]
pub enum BootMethod {
    Uefi,
    Multiboot,
}

/// Where the initramfs lies.
#[derive(Clone, Copy, PartialEq, Eq, Structural, Debug)]
pub struct InitramfsInfo {
    pub base: u64,
    pub size: usize,
}

/// Whether a UEFI system table is there: none is looked for yet.
pub fn is_available() -> (r: bool)
    ensures
        !r,
{
    false
}

/// Loads the kernel through UEFI: not provided yet, so no entry point.
pub fn load_kernel() -> (entry: u64)
    ensures
        entry == 0,
{
    0
}

/// The UEFI memory map: not provided yet, so empty.
pub fn get_memory_map() -> (map: Vec<u8>)
    ensures
        map@.len() == 0,
{
    Vec::new()
}

/// Checks the kernel's signature under [`get_public_key`]: no key is
/// provisioned, so no signature verifies.
pub fn verify_kernel_signature(kernel_data: &[u8], signature: &[u8]) -> (ok: bool)
    ensures
        !ok,
{
    false
}

/// Checks the initramfs's signature under [`get_public_key`]: no key is
/// provisioned, so no signature verifies.
pub fn verify_initramfs_signature(initramfs_data: &[u8], signature: &[u8]) -> (ok: bool)
    ensures
        !ok,
{
    false
}

/// The bootloader's public key: none is provisioned.
pub fn get_public_key() -> (key: Vec<u8>)
    ensures
        key@.len() == 0,
{
    Vec::new()
}

/// Loads the initramfs: not provided yet, so at address 0.
pub fn load() -> (addr: u64)
    ensures
        addr == 0,
{
    0
}

/// Reads the initramfs at `addr`: its size is not known yet.
pub fn parse(addr: u64) -> (info: InitramfsInfo)
    ensures
        info == (InitramfsInfo { base: addr, size: 0 }),
{
    InitramfsInfo { base: addr, size: 0 }
}

/// UEFI when it is available, Multiboot otherwise.
pub fn detect_boot_method(uefi_available: bool) -> (m: BootMethod)
    ensures
        m == if uefi_available {
            BootMethod::Uefi
        } else {
            BootMethod::Multiboot
        },
{
    if uefi_available {
        BootMethod::Uefi
    } else {
        BootMethod::Multiboot
    }
}

/// The boot information for a kernel whose initramfs is at
/// `initramfs_addr`; sizes and the other tables are filled in later.
pub fn create_boot_info(initramfs_addr: u64) -> (info: BootInfo)
    ensures
        info == (BootInfo {
            magic: BOOT_INFO_MAGIC,
            version: 1,
            initramfs_base: initramfs_addr,
            initramfs_size: 0,
            memory_map_base: 0,
            memory_map_size: 0,
            acpi_rsdp: 0,
        }),
{
    BootInfo {
        magic: BOOT_INFO_MAGIC,
        version: 1,
        initramfs_base: initramfs_addr,
        initramfs_size: 0,
        memory_map_base: 0,
        memory_map_size: 0,
        acpi_rsdp: 0,
    }
}

} // verus!
