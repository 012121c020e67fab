//! The hypervisor's own boot page tables: 1 GiB blocks at level 1 and 2 MiB
//! blocks at level 2, normal memory or device memory by platform.
use vstd::prelude::*;

verus! {

pub const ENTRY_PER_PAGE: usize = 512;
pub const PLATFORM_PHYSICAL_LIMIT_GB: usize = 16;

/// The mask of the 36-bit output page number field (bits 12 to 47).
pub const OUTPUT_PPN_MASK: u64 = 0xf_ffff_ffff;

/// The memory type a block maps.
#[derive(Clone, Copy, PartialEq, Eq, Structural, Debug)]
pub enum MemoryType {
    Normal,
    Device,
}

/// A block descriptor: valid, block type, accessed, read-write at EL2, the
/// output page number; device memory with attribute index 0 and outer
/// shareable, normal memory with attribute index 1 and inner shareable.
pub open spec fn block_descriptor(output_addr: u64, mem_type: MemoryType) -> u64 {
    let ppn = ((output_addr >> 12u64) & OUTPUT_PPN_MASK) << 12u64;
    match mem_type {
        MemoryType::Device => ppn | 0x400 | 0x200 | 1,
        MemoryType::Normal => ppn | 0x400 | 0x300 | 0x4 | 1,
    }
}

/// A table descriptor: valid, table type, the output page number.
pub open spec fn table_descriptor(output_addr: u64) -> u64 {
    (((output_addr >> 12u64) & OUTPUT_PPN_MASK) << 12u64) | 1 | 2
}

/// The block descriptor for `output_addr`.
pub fn block_new(output_addr: u64, mem_type: MemoryType) -> (r: u64)
    ensures
        r == block_descriptor(output_addr, mem_type),
{
    let ppn = ((output_addr >> 12u64) & OUTPUT_PPN_MASK) << 12u64;
    match mem_type {
        MemoryType::Device => ppn | 0x400 | 0x200 | 1,
        MemoryType::Normal => ppn | 0x400 | 0x300 | 0x4 | 1,
    }
}

/// The table descriptor for the table at `output_addr`.
pub fn block_table(output_addr: u64) -> (r: u64)
    ensures
        r == table_descriptor(output_addr),
{
    (((output_addr >> 12u64) & OUTPUT_PPN_MASK) << 12u64) | 1 | 2
}

/// A page of 512 descriptors.
pub struct PageTables {
    pub entry: Vec<u64>,
}

/// The platforms whose boot page tables differ.
#[derive(Clone, Copy, PartialEq, Eq, Structural, Debug)]
pub enum BootPlatform {
    Qemu,
    Pi4,
    Tx2,
    Rk3588,
}

/// The level-1 descriptor `i` of `platform`'s boot tables, the level-2 table
/// being at `lvl2_base` and the hypervisor's memory starting at `mem_base`.
pub open spec fn boot_lvl1(platform: BootPlatform, lvl2_base: u64, mem_base: u64, i: int) -> u64 {
    let gb = (i * 0x4000_0000) as u64;
    match platform {
        BootPlatform::Qemu => if i < 16 {
            block_descriptor(gb, if gb < mem_base { MemoryType::Device } else { MemoryType::Normal })
        } else if i == 32 {
            table_descriptor(lvl2_base)
        } else {
            0
        },
        BootPlatform::Tx2 => if i == 0 {
            table_descriptor(lvl2_base)
        } else if i < 16 && gb >= mem_base {
            block_descriptor(gb, MemoryType::Normal)
        } else {
            0
        },
        BootPlatform::Pi4 | BootPlatform::Rk3588 => if i == 3 {
            table_descriptor(lvl2_base)
        } else if i < 8 {
            block_descriptor(gb, MemoryType::Normal)
        } else {
            0
        },
    }
}

/// The level-2 descriptor `i` of `platform`'s boot tables: on QEMU, device
/// blocks below the hypervisor's memory; on the TX2, device blocks for the
/// UARTs, the GIC and the SMMU; on the Pi 4 and the RK3588, the 1 GiB from
/// 3 GiB on, normal memory up to a device window at its top (the last 64 MiB
/// on the Pi 4, the last 256 MiB on the RK3588).
pub open spec fn boot_lvl2(platform: BootPlatform, mem_base: u64, i: int) -> u64 {
    let mb2 = (i * 0x20_0000) as u64;
    let high = (0xc000_0000 + i * 0x20_0000) as u64;
    match platform {
        BootPlatform::Qemu => if mb2 < mem_base {
            block_descriptor(mb2, MemoryType::Device)
        } else {
            0
        },
        BootPlatform::Tx2 => if i == 24 || i == 28 || i == 97 || (144 <= i < 152) {
            block_descriptor(mb2, MemoryType::Device)
        } else {
            0
        },
        BootPlatform::Pi4 => block_descriptor(high, if i < 480 { MemoryType::Normal } else { MemoryType::Device }),
        BootPlatform::Rk3588 => block_descriptor(high, if i < 384 { MemoryType::Normal } else { MemoryType::Device }),
    }
}

fn zero_table() -> (r: Vec<u64>)
    ensures
        r@.len() == 512,
        forall|i: int| 0 <= i < 512 ==> r@[i] == 0,
{
    let mut v: Vec<u64> = Vec::new();
    let mut i: usize = 0;
    while i < 512
        invariant
            i <= 512,
            v@.len() == i,
            forall|j: int| 0 <= j < i ==> v@[j] == 0,
        decreases 512 - i,
    {
        v.push(0);
        i = i + 1;
    }
    v
}

/// Fills the hypervisor's boot page tables for `platform`: the level-1 table
/// and the level-2 table (at `lvl2_base`) that it points to, given where the
/// hypervisor's memory starts.
pub fn pt_populate(platform: BootPlatform, lvl2_base: u64, mem_base: u64) -> (r: (PageTables, PageTables))
    ensures
        r.0.entry@.len() == 512,
        r.1.entry@.len() == 512,
        forall|i: int| 0 <= i < 512 ==> r.0.entry@[i] == boot_lvl1(platform, lvl2_base, mem_base, i),
        forall|i: int| 0 <= i < 512 ==> r.1.entry@[i] == boot_lvl2(platform, mem_base, i),
{
    let mut l1 = zero_table();
    let mut l2 = zero_table();
    let mut i: usize = 0;
    while i < 512
        invariant
            i <= 512,
            l1@.len() == 512,
            l2@.len() == 512,
            forall|j: int| 0 <= j < i ==> l1@[j] == boot_lvl1(platform, lvl2_base, mem_base, j),
            forall|j: int| 0 <= j < i ==> l2@[j] == boot_lvl2(platform, mem_base, j),
        decreases 512 - i,
    {
        let gb: u64 = (i as u64) * 0x4000_0000;
        let mb2: u64 = (i as u64) * 0x20_0000;
        let high: u64 = 0xc000_0000 + (i as u64) * 0x20_0000;
        let e1: u64 = match platform {
            BootPlatform::Qemu => if i < 16 {
                block_new(gb, if gb < mem_base { MemoryType::Device } else { MemoryType::Normal })
            } else if i == 32 {
                block_table(lvl2_base)
            } else {
                0
            },
            BootPlatform::Tx2 => if i == 0 {
                block_table(lvl2_base)
            } else if i < 16 && gb >= mem_base {
                block_new(gb, MemoryType::Normal)
            } else {
                0
            },
            BootPlatform::Pi4 | BootPlatform::Rk3588 => if i == 3 {
                block_table(lvl2_base)
            } else if i < 8 {
                block_new(gb, MemoryType::Normal)
            } else {
                0
            },
        };
        let e2: u64 = match platform {
            BootPlatform::Qemu => if mb2 < mem_base {
                block_new(mb2, MemoryType::Device)
            } else {
                0
            },
            BootPlatform::Tx2 => if i == 24 || i == 28 || i == 97 || (144 <= i && i < 152) {
                block_new(mb2, MemoryType::Device)
            } else {
                0
            },
            BootPlatform::Pi4 => block_new(high, if i < 480 { MemoryType::Normal } else { MemoryType::Device }),
            BootPlatform::Rk3588 => block_new(high, if i < 384 { MemoryType::Normal } else { MemoryType::Device }),
        };
        l1.set(i, e1);
        l2.set(i, e2);
        i = i + 1;
    }
    (PageTables { entry: l1 }, PageTables { entry: l2 })
}

} // verus!
