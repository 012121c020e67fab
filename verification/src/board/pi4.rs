//! The Raspberry Pi 4 Model B.
use vstd::prelude::*;

use crate::arch::aarch64::gicv3::GicDesc;
use crate::arch::aarch64::smmu::{ArchDesc, SmmuDesc};
use crate::board::platform_common::{
    ClusterDesc, CoreName, PlatCpuConfig, PlatCpuCoreConfig, PlatMemRegion, PlatMemoryConfig, PlatOperation,
    PlatformConfig, SchedRule,
};

verus! {

pub const UART_0_INT: usize = 32 + 0x79;
pub const UART_1_INT: usize = 32 + 0x79;
pub const DISK_PARTITION_0_START: usize = 2048;
pub const DISK_PARTITION_1_START: usize = 526336;
pub const DISK_PARTITION_2_START: usize = 17303552;
pub const DISK_PARTITION_3_START: usize = 34082816;
pub const DISK_PARTITION_4_START: usize = 50862080;
pub const DISK_PARTITION_0_SIZE: usize = 524288;
pub const DISK_PARTITION_1_SIZE: usize = 16777216;
pub const DISK_PARTITION_2_SIZE: usize = 16777216;
pub const DISK_PARTITION_3_SIZE: usize = 16777216;
pub const DISK_PARTITION_4_SIZE: usize = 11471872;

pub const UART_0_ADDR: usize = 0xFE201000;
pub const UART_1_ADDR: usize = 0xFE201400;
pub const HYPERVISOR_UART_BASE: usize = 0xFE201000;
pub const GICD_BASE: usize = 0xFF841000;
pub const GICC_BASE: usize = 0xFF842000;
pub const GICH_BASE: usize = 0xFF844000;
pub const GICV_BASE: usize = 0xFF846000;

/// The Raspberry Pi 4 Model B.
pub struct Pi4Platform;

impl PlatOperation for Pi4Platform {
    const UART_0_ADDR: usize = self::UART_0_ADDR;
    const UART_1_ADDR: usize = self::UART_1_ADDR;
    const HYPERVISOR_UART_BASE: usize = self::HYPERVISOR_UART_BASE;
    const GICD_BASE: usize = self::GICD_BASE;
    const GICC_BASE: usize = self::GICC_BASE;
    const GICH_BASE: usize = self::GICH_BASE;
    const GICV_BASE: usize = self::GICV_BASE;

    fn plat_desc() -> (r: PlatformConfig)
        ensures
            r.cpu_desc.num == 4,
            r.cpu_desc.core_list@ == seq![
                PlatCpuCoreConfig { name: CoreName::ArmCortexA57, mpidr: 0x80000000, sched: SchedRule::RoundRobin },
                PlatCpuCoreConfig { name: CoreName::ArmCortexA57, mpidr: 0x80000001, sched: SchedRule::RoundRobin },
                PlatCpuCoreConfig { name: CoreName::ArmCortexA57, mpidr: 0x80000002, sched: SchedRule::RoundRobin },
                PlatCpuCoreConfig { name: CoreName::ArmCortexA57, mpidr: 0x80000003, sched: SchedRule::RoundRobin },
            ],
            r.cpu_desc.cluster_desc.num == 1,
            r.cpu_desc.cluster_desc.core_num@ == seq![4usize],
            r.mem_desc.base == 0xf0000000,
            r.mem_desc.regions@ == seq![
                PlatMemRegion { base: 0xf0000000, size: 0xc000000 },
                PlatMemRegion { base: 0x200000, size: 0x3de00000 },
                PlatMemRegion { base: 0x40000000, size: 0xb0000000 },
                PlatMemRegion { base: 0x100000000, size: 0x100000000 },
            ],
            r.arch_desc == (ArchDesc { gic_desc: GicDesc { gicd_addr: 0xFF841000, gicc_addr: 0xFF842000, gich_addr: 0xFF844000, gicv_addr: 0xFF846000, gicr_addr: 0, maintenance_int_id: 25 }, smmu_desc: SmmuDesc { base: 0, interrupt_id: 0, global_mask: 0 } }),
    {
        let core_list = vec![
            PlatCpuCoreConfig { name: CoreName::ArmCortexA57, mpidr: 0x80000000, sched: SchedRule::RoundRobin },
            PlatCpuCoreConfig { name: CoreName::ArmCortexA57, mpidr: 0x80000001, sched: SchedRule::RoundRobin },
            PlatCpuCoreConfig { name: CoreName::ArmCortexA57, mpidr: 0x80000002, sched: SchedRule::RoundRobin },
            PlatCpuCoreConfig { name: CoreName::ArmCortexA57, mpidr: 0x80000003, sched: SchedRule::RoundRobin },
        ];
        let regions = vec![
            PlatMemRegion { base: 0xf0000000, size: 0xc000000 },
            PlatMemRegion { base: 0x200000, size: 0x3de00000 },
            PlatMemRegion { base: 0x40000000, size: 0xb0000000 },
            PlatMemRegion { base: 0x100000000, size: 0x100000000 },
        ];
        let core_num = vec![4usize];
        assert(core_list@ =~= seq![
            PlatCpuCoreConfig { name: CoreName::ArmCortexA57, mpidr: 0x80000000, sched: SchedRule::RoundRobin },
            PlatCpuCoreConfig { name: CoreName::ArmCortexA57, mpidr: 0x80000001, sched: SchedRule::RoundRobin },
            PlatCpuCoreConfig { name: CoreName::ArmCortexA57, mpidr: 0x80000002, sched: SchedRule::RoundRobin },
            PlatCpuCoreConfig { name: CoreName::ArmCortexA57, mpidr: 0x80000003, sched: SchedRule::RoundRobin },
        ]);
        assert(regions@ =~= seq![
            PlatMemRegion { base: 0xf0000000, size: 0xc000000 },
            PlatMemRegion { base: 0x200000, size: 0x3de00000 },
            PlatMemRegion { base: 0x40000000, size: 0xb0000000 },
            PlatMemRegion { base: 0x100000000, size: 0x100000000 },
        ]);
        assert(core_num@ =~= seq![4usize]);
        PlatformConfig {
            cpu_desc: PlatCpuConfig { num: 4, core_list, cluster_desc: ClusterDesc { num: 1, core_num } },
            mem_desc: PlatMemoryConfig { base: 0xf0000000, regions },
            arch_desc: ArchDesc { gic_desc: GicDesc { gicd_addr: 0xFF841000, gicc_addr: 0xFF842000, gich_addr: 0xFF844000, gicv_addr: 0xFF846000, gicr_addr: 0, maintenance_int_id: 25 }, smmu_desc: SmmuDesc { base: 0, interrupt_id: 0, global_mask: 0 } },
        }
    }
}

impl Pi4Platform {
    /// The GIC CPU interface of CPU `cpuid`: the same number.
    pub fn cpuid_to_cpuif(cpuid: usize) -> (r: usize)
        ensures
            r == cpuid,
    {
        cpuid
    }

    /// The CPU of GIC CPU interface `cpuif`: the same number.
    pub fn cpuif_to_cpuid(cpuif: usize) -> (r: usize)
        ensures
            r == cpuif,
    {
        cpuif
    }
}

} // verus!
