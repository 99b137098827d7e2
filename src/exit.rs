//! Codes the kernel reports to the emulator's exit device.
use vstd::prelude::*;

verus! {

/// Port of the emulator's exit device.
pub const EXIT_PORT: u16 = 0xf4;

/// Outcome written to the exit device.
#[derive(PartialEq, Eq, Structural, Clone, Copy, Debug)]
pub enum QemuExitCode {
    Success,
    Failed,
}

impl QemuExitCode {
    /// The value written to the exit device.
    pub fn value(&self) -> (r: u32)
        ensures
            r == (match *self {
                QemuExitCode::Success => 0x10u32,
                QemuExitCode::Failed => 0x11u32,
            }),
    {
        match self {
            QemuExitCode::Success => 0x10,
            QemuExitCode::Failed => 0x11,
        }
    }
}

} // verus!
