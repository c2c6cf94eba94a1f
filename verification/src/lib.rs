//! Core of a small Sv39 microkernel for a single-hart RISC-V 64-bit target.
//!
//! The library holds the kernel-resident logic: the physical page allocator,
//! the three-level page-table manager, the ELF loader, the process and trap
//! frame abstractions, the scheduler, the IPC server registry, and the
//! system-call layer.  Hardware access (CSRs, MMIO, the trampoline) lives
//! outside; everything here works on plain values and is verified.

pub mod allocator;
pub mod elf;
pub mod ipc;
pub mod librs;
pub mod log;
pub mod memory;
pub mod plic;
pub mod power;
pub mod process;
pub mod pte;
pub mod scheduler;
pub mod sections;
pub mod syscall;
pub mod table;
pub mod time;
pub mod trap;
pub mod virtio;
pub mod trapframe;
pub mod uart;

use vstd::prelude::*;

verus! {

} // verus!
