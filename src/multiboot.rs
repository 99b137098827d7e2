//! The information record that a Multiboot boot loader hands the kernel.
use vstd::prelude::*;

verus! {

/// The value a Multiboot loader leaves in `eax` before jumping to the kernel.
pub const MULTIBOOT_MAGIC: u32 = 0x2BADB002;

/// Flag bit that says the framebuffer fields are valid.
pub const FRAMEBUFFER_INFO_FLAG: u32 = 0x1000;

/// The Multiboot information record, field for field.
pub struct MultibootHeader {
    pub flags: u32,
    pub mem_lower: u32,
    pub mem_upper: u32,
    pub boot_device: u32,
    pub cmdline: u32,
    pub mods_count: u32,
    pub mods_addr: u32,
    pub syms1: u32,
    pub syms2: u32,
    pub syms3: u32,
    pub syms4: u32,
    pub mmap_length: u32,
    pub mmap_addr: u32,
    pub drives_length: u32,
    pub drives_addr: u32,
    pub config_table: u32,
    pub boot_loader_name: u32,
    pub apm_table: u32,
    pub vbe_control_info: u32,
    pub vbe_mode_info: u32,
    pub vbe_mode: u16,
    pub vbe_interface_seg: u16,
    pub vbe_interface_off: u16,
    pub vbe_interface_len: u16,
    pub framebuffer_addr: u64,
    pub framebuffer_pitch: u32,
    pub framebuffer_width: u32,
    pub framebuffer_height: u32,
    pub framebuffer_bpp: u8,
    pub framebuffer_type: u8,
    pub color_info: [u8; 5],
}

/// Whether `magic` is the value a Multiboot loader passes; anything else
/// means the kernel was not started by one, which is fatal.
pub fn verify_mutliboot_magic(magic: u32) -> (r: bool)
    ensures
        r == (magic == MULTIBOOT_MAGIC),
{
    magic == MULTIBOOT_MAGIC
}

/// Checks what the kernel relies on before it reads the record: that it
/// was handed over by a Multiboot loader.
pub fn parse_multiboot_header(magic: u32, _multiboot_header: &MultibootHeader) -> (r: bool)
    ensures
        r == (magic == MULTIBOOT_MAGIC),
{
    verify_mutliboot_magic(magic)
}

} // verus!
