//! Protection and device-initialization core of a small x86 kernel.
//!
//! The crate verifies the logic that sits between the hardware and the rest
//! of the kernel: the PS/2 controller bring-up handshake and its device
//! decoders, the legacy interrupt-controller coordination, the interrupt
//! vector table's shape, the text-mode renderer, and the virtual-memory
//! manager (frame allocator and four-level page-table walker/mapper).
//!
//! Port and memory-mapped I/O cannot be verified; the binary around this
//! library performs it and feeds the plain bytes and values in and out.

use vstd::prelude::*;

pub mod interrupts;
pub mod memory;
pub mod mouse;
pub mod pic;
pub mod ps2;
pub mod vga_driver;

verus! {

/// Exit status reported to the emulator's debug exit device.
#[derive(Debug, Clone, Copy, PartialEq, Eq, Structural)]
pub enum QemuExitCode {
    Success,
    Failed,
}

impl QemuExitCode {
    /// The wire value written to the exit device for this status.
    pub fn code(self) -> (r: u32)
        ensures
            self == QemuExitCode::Success ==> r == 0x10,
            self == QemuExitCode::Failed ==> r == 0x11,
    {
        match self {
            QemuExitCode::Success => 0x10,
            QemuExitCode::Failed => 0x11,
        }
    }
}

} // verus!
