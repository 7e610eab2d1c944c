//! Layout constants shared across the kernel.

use vstd::prelude::*;

verus! {

/// The virtual address the user image is mapped at, page by page.
pub const USER_BASE: u64 = 0x1000000;

/// One past the highest virtual address the kernel maps: Sv39 addresses
/// reachable without sign extension.
pub const VADDR_END: u64 = 0x40_0000_0000;

} // verus!
