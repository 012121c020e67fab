//! The Rockchip RK3588: four Cortex-A55 and four Cortex-A76 cores in three clusters.
use vstd::prelude::*;

use crate::arch::aarch64::gicv3::GicDesc;
use crate::arch::aarch64::smmu::{ArchDesc, SmmuDesc};
use crate::board::platform_common::{
    ClusterDesc, CoreName, PlatCpuConfig, PlatCpuCoreConfig, PlatMemRegion, PlatMemoryConfig, PlatOperation,
    PlatformConfig, SchedRule,
};

verus! {

pub const UART_0_ADDR: usize = 0xfeb50000;
pub const UART_1_ADDR: usize = 0xfeba0000;
pub const HYPERVISOR_UART_BASE: usize = 0xfeb50000;
pub const GICD_BASE: usize = 0xfe600000;
pub const GICC_BASE: usize = 0xfe610000;
pub const GICH_BASE: usize = 0xfe620000;
pub const GICV_BASE: usize = 0xfe630000;

/// The base of the GICv3 redistributors.
pub const GICR_BASE: usize = 0xfe680000;
pub const UART_0_INT: usize = 32 + 0x12d;
pub const UART_1_INT: usize = 32 + 0x134;
pub const DISK_PARTITION_0_START: usize = 16384;
pub const DISK_PARTITION_1_START: usize = 32768;
pub const DISK_PARTITION_2_START: usize = 40960;
pub const DISK_PARTITION_0_SIZE: usize = 16384;
pub const DISK_PARTITION_1_SIZE: usize = 8192;
pub const DISK_PARTITION_2_SIZE: usize = 524288;

/// The Rockchip RK3588: four Cortex-A55 and four Cortex-A76 cores in three clusters.
pub struct Rk3588Platform;

impl PlatOperation for Rk3588Platform {
    const UART_0_ADDR: usize = self::UART_0_ADDR;
    const UART_1_ADDR: usize = self::UART_1_ADDR;
    const HYPERVISOR_UART_BASE: usize = self::HYPERVISOR_UART_BASE;
    const GICD_BASE: usize = self::GICD_BASE;
    const GICC_BASE: usize = self::GICC_BASE;
    const GICH_BASE: usize = self::GICH_BASE;
    const GICV_BASE: usize = self::GICV_BASE;

    fn plat_desc() -> (r: PlatformConfig)
        ensures
            r.cpu_desc.num == 8,
            r.cpu_desc.core_list@ == seq![
                PlatCpuCoreConfig { name: CoreName::ArmCortexA55, mpidr: 0x81000000, sched: SchedRule::RoundRobin },
                PlatCpuCoreConfig { name: CoreName::ArmCortexA55, mpidr: 0x81000100, sched: SchedRule::RoundRobin },
                PlatCpuCoreConfig { name: CoreName::ArmCortexA55, mpidr: 0x81000200, sched: SchedRule::RoundRobin },
                PlatCpuCoreConfig { name: CoreName::ArmCortexA55, mpidr: 0x81000300, sched: SchedRule::RoundRobin },
                PlatCpuCoreConfig { name: CoreName::ArmCortexA76, mpidr: 0x81000400, sched: SchedRule::RoundRobin },
                PlatCpuCoreConfig { name: CoreName::ArmCortexA76, mpidr: 0x81000500, sched: SchedRule::RoundRobin },
                PlatCpuCoreConfig { name: CoreName::ArmCortexA76, mpidr: 0x81000600, sched: SchedRule::RoundRobin },
                PlatCpuCoreConfig { name: CoreName::ArmCortexA76, mpidr: 0x81000700, sched: SchedRule::RoundRobin },
            ],
            r.cpu_desc.cluster_desc.num == 3,
            r.cpu_desc.cluster_desc.core_num@ == seq![4usize, 2usize, 2usize],
            r.mem_desc.base == 0x200000,
            r.mem_desc.regions@ == seq![
                PlatMemRegion { base: 0x200000, size: 0x8200000 },
                PlatMemRegion { base: 0x9400000, size: 0x76c00000 },
                PlatMemRegion { base: 0x80000000, size: 0x80000000 },
                PlatMemRegion { base: 0x100000000, size: 0x80000000 },
                PlatMemRegion { base: 0x180000000, size: 0x80000000 },
            ],
            r.arch_desc == (ArchDesc { gic_desc: GicDesc { gicd_addr: 0xfe600000, gicc_addr: 0xfe610000, gich_addr: 0xfe620000, gicv_addr: 0xfe630000, gicr_addr: 0xfe680000, maintenance_int_id: 25 }, smmu_desc: SmmuDesc { base: 0xfcb00000, interrupt_id: 0x17d, global_mask: 0 } }),
    {
        let core_list = vec![
            PlatCpuCoreConfig { name: CoreName::ArmCortexA55, mpidr: 0x81000000, sched: SchedRule::RoundRobin },
            PlatCpuCoreConfig { name: CoreName::ArmCortexA55, mpidr: 0x81000100, sched: SchedRule::RoundRobin },
            PlatCpuCoreConfig { name: CoreName::ArmCortexA55, mpidr: 0x81000200, sched: SchedRule::RoundRobin },
            PlatCpuCoreConfig { name: CoreName::ArmCortexA55, mpidr: 0x81000300, sched: SchedRule::RoundRobin },
            PlatCpuCoreConfig { name: CoreName::ArmCortexA76, mpidr: 0x81000400, sched: SchedRule::RoundRobin },
            PlatCpuCoreConfig { name: CoreName::ArmCortexA76, mpidr: 0x81000500, sched: SchedRule::RoundRobin },
            PlatCpuCoreConfig { name: CoreName::ArmCortexA76, mpidr: 0x81000600, sched: SchedRule::RoundRobin },
            PlatCpuCoreConfig { name: CoreName::ArmCortexA76, mpidr: 0x81000700, sched: SchedRule::RoundRobin },
        ];
        let regions = vec![
            PlatMemRegion { base: 0x200000, size: 0x8200000 },
            PlatMemRegion { base: 0x9400000, size: 0x76c00000 },
            PlatMemRegion { base: 0x80000000, size: 0x80000000 },
            PlatMemRegion { base: 0x100000000, size: 0x80000000 },
            PlatMemRegion { base: 0x180000000, size: 0x80000000 },
        ];
        let core_num = vec![4usize, 2usize, 2usize];
        assert(core_list@ =~= seq![
            PlatCpuCoreConfig { name: CoreName::ArmCortexA55, mpidr: 0x81000000, sched: SchedRule::RoundRobin },
            PlatCpuCoreConfig { name: CoreName::ArmCortexA55, mpidr: 0x81000100, sched: SchedRule::RoundRobin },
            PlatCpuCoreConfig { name: CoreName::ArmCortexA55, mpidr: 0x81000200, sched: SchedRule::RoundRobin },
            PlatCpuCoreConfig { name: CoreName::ArmCortexA55, mpidr: 0x81000300, sched: SchedRule::RoundRobin },
            PlatCpuCoreConfig { name: CoreName::ArmCortexA76, mpidr: 0x81000400, sched: SchedRule::RoundRobin },
            PlatCpuCoreConfig { name: CoreName::ArmCortexA76, mpidr: 0x81000500, sched: SchedRule::RoundRobin },
            PlatCpuCoreConfig { name: CoreName::ArmCortexA76, mpidr: 0x81000600, sched: SchedRule::RoundRobin },
            PlatCpuCoreConfig { name: CoreName::ArmCortexA76, mpidr: 0x81000700, sched: SchedRule::RoundRobin },
        ]);
        assert(regions@ =~= seq![
            PlatMemRegion { base: 0x200000, size: 0x8200000 },
            PlatMemRegion { base: 0x9400000, size: 0x76c00000 },
            PlatMemRegion { base: 0x80000000, size: 0x80000000 },
            PlatMemRegion { base: 0x100000000, size: 0x80000000 },
            PlatMemRegion { base: 0x180000000, size: 0x80000000 },
        ]);
        assert(core_num@ =~= seq![4usize, 2usize, 2usize]);
        PlatformConfig {
            cpu_desc: PlatCpuConfig { num: 8, core_list, cluster_desc: ClusterDesc { num: 3, core_num } },
            mem_desc: PlatMemoryConfig { base: 0x200000, regions },
            arch_desc: ArchDesc { gic_desc: GicDesc { gicd_addr: 0xfe600000, gicc_addr: 0xfe610000, gich_addr: 0xfe620000, gicv_addr: 0xfe630000, gicr_addr: 0xfe680000, maintenance_int_id: 25 }, smmu_desc: SmmuDesc { base: 0xfcb00000, interrupt_id: 0x17d, global_mask: 0 } },
        }
    }
}

impl Rk3588Platform {
    /// The CPU id in an affinity value: its affinity-1 byte (bits 8 to 15).
    pub fn mpidr2cpuid(mpidr: usize) -> (r: usize)
        ensures
            r == (mpidr / 256) % 256,
    {
        let r = (mpidr >> 8) & 0xff;
        assert(r == (mpidr / 256) % 256) by (bit_vector)
            requires
                r == (mpidr >> 8usize) & 0xffusize,
        ;
        r
    }

    /// The GIC CPU interface of CPU `cpuid`: its affinity value.
    pub fn cpuid_to_cpuif(cpu: &PlatCpuConfig, cpuid: usize) -> (r: usize)
        requires
            cpuid < cpu.core_list@.len(),
        ensures
            r == cpu.core_list@[cpuid as int].mpidr,
    {
        cpu.core_list[cpuid].mpidr
    }

    /// The CPU of GIC CPU interface `cpuif`: the same number.
    pub fn cpuif_to_cpuid(cpuif: usize) -> (r: usize)
        ensures
            r == cpuif,
    {
        cpuif
    }

    /// The virtual CPU id in a virtual affinity value: its affinity-1 byte.
    pub fn vmpidr2vcpuid(vmpidr: usize) -> (r: usize)
        ensures
            r == (vmpidr / 256) % 256,
    {
        let r = (vmpidr >> 8) & 0xff;
        assert(r == (vmpidr / 256) % 256) by (bit_vector)
            requires
                r == (vmpidr >> 8usize) & 0xffusize,
        ;
        r
    }
}

} // verus!
