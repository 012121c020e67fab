//! AArch64 constants and the stage-2 translation base a VM runs with.
use vstd::prelude::*;

verus! {

pub const PAGE_SIZE: usize = 4096;
pub const PAGE_SHIFT: usize = 12;

/// The number of page table entries in a page.
pub const ENTRY_PER_PAGE: usize = 512;

pub const WORD_SIZE: usize = 8;
pub const PTE_PER_PAGE: usize = 512;

/// The AArch64 architecture.
pub struct Aarch64Arch;

impl Aarch64Arch {
    /// The stage-2 translation table base register value that installs the
    /// page table at `base` for VM `vmid`: the VMID in bits 48 and up, the
    /// base below.
    pub fn vttbr(base: u64, vmid: u64) -> (r: u64)
        requires
            vmid < 0x1_0000,
        ensures
            r == ((vmid << 48u64) | base),
    {
        (vmid << 48) | base
    }
}

} // verus!
