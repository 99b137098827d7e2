//! Memory and synchronisation substrate of a small freestanding x86 kernel:
//! a first-fit free-list allocator whose block headers live inside the
//! managed memory, a single-producer/single-consumer ring buffer that
//! overwrites its oldest element when full, and a spin lock, together with
//! the pure encoding and bookkeeping logic of the kernel's device drivers.
pub mod bytes;
pub mod cpuid;
pub mod exit;
pub mod circular_buffer;
pub mod framebuffer;
pub mod gdt;
pub mod idt;
pub mod interrupt;
pub mod kernel;
pub mod log;
pub mod memory;
pub mod memory_map;
pub mod multiboot;
pub mod pic;
pub mod port;
pub mod ps2;
pub mod spinlock;
pub mod test_result;
pub mod time;
pub mod vga;
