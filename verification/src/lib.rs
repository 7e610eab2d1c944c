//! Core logic of a small RISC-V 64-bit supervisor-mode kernel for the QEMU
//! `virt` machine: Sv39 paging, a bump page allocator, a cooperative
//! round-robin scheduler, syscall and trap dispatch, the virtio block-device
//! request protocol, and a read-only ustar TAR catalog.
//!
//! Everything that touches the machine itself (CSRs, MMIO, SBI calls, the
//! assembly trampolines) lives outside this crate; the decisions those paths
//! take, and the data they exchange, are modelled and verified here.

pub mod allocator;
pub mod common;
pub mod constants;
pub mod memory;
pub mod process;
pub mod sbi;
pub mod tar;
pub mod tarfile;
pub mod trap;
pub mod virtio;
