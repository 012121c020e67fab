//! The NVIDIA Jetson TX2 (its four Cortex-A57 cores).
use vstd::prelude::*;

use crate::arch::aarch64::gicv3::GicDesc;
use crate::arch::aarch64::smmu::{ArchDesc, SmmuDesc};
use crate::board::platform_common::{
    ClusterDesc, CoreName, PlatCpuConfig, PlatCpuCoreConfig, PlatMemRegion, PlatMemoryConfig, PlatOperation,
    PlatformConfig, SchedRule,
};

verus! {

pub const UART_0_INT: usize = 32 + 0x70;
pub const UART_1_INT: usize = 32 + 0x72;
pub const DISK_PARTITION_0_START: usize = 43643256;
pub const DISK_PARTITION_1_START: usize = 4104;
pub const DISK_PARTITION_2_START: usize = 45740408;
pub const DISK_PARTITION_0_SIZE: usize = 2097152;
pub const DISK_PARTITION_1_SIZE: usize = 41943040;
pub const DISK_PARTITION_2_SIZE: usize = 8388608;

pub const UART_0_ADDR: usize = 0x3100000;
pub const UART_1_ADDR: usize = 0xc280000;
pub const HYPERVISOR_UART_BASE: usize = 0xc280000;
pub const GICD_BASE: usize = 0x3881000;
pub const GICC_BASE: usize = 0x3882000;
pub const GICH_BASE: usize = 0x3884000;
pub const GICV_BASE: usize = 0x3886000;

/// The NVIDIA Jetson TX2 (its four Cortex-A57 cores).
pub struct Tx2Platform;

impl PlatOperation for Tx2Platform {
    const UART_0_ADDR: usize = self::UART_0_ADDR;
    const UART_1_ADDR: usize = self::UART_1_ADDR;
    const HYPERVISOR_UART_BASE: usize = self::HYPERVISOR_UART_BASE;
    const GICD_BASE: usize = self::GICD_BASE;
    const GICC_BASE: usize = self::GICC_BASE;
    const GICH_BASE: usize = self::GICH_BASE;
    const GICV_BASE: usize = self::GICV_BASE;

    fn plat_desc() -> (r: PlatformConfig)
        ensures
            r.cpu_desc.num == 4,
            r.cpu_desc.core_list@ == seq![
                PlatCpuCoreConfig { name: CoreName::ArmCortexA57, mpidr: 0x80000100, sched: SchedRule::RoundRobin },
                PlatCpuCoreConfig { name: CoreName::ArmCortexA57, mpidr: 0x80000101, sched: SchedRule::RoundRobin },
                PlatCpuCoreConfig { name: CoreName::ArmCortexA57, mpidr: 0x80000102, sched: SchedRule::RoundRobin },
                PlatCpuCoreConfig { name: CoreName::ArmCortexA57, mpidr: 0x80000103, sched: SchedRule::RoundRobin },
            ],
            r.cpu_desc.cluster_desc.num == 1,
            r.cpu_desc.cluster_desc.core_num@ == seq![4usize],
            r.mem_desc.base == 0x80000000,
            r.mem_desc.regions@ == seq![
                PlatMemRegion { base: 0x80000000, size: 0x10000000 },
                PlatMemRegion { base: 0x90000000, size: 0x60000000 },
                PlatMemRegion { base: 0xf0200000, size: 0x185600000 },
            ],
            r.arch_desc == (ArchDesc { gic_desc: GicDesc { gicd_addr: 0x3881000, gicc_addr: 0x3882000, gich_addr: 0x3884000, gicv_addr: 0x3886000, gicr_addr: 0, maintenance_int_id: 25 }, smmu_desc: SmmuDesc { base: 0x12000000, interrupt_id: 187, global_mask: 0x7f80 } }),
    {
        let core_list = vec![
            PlatCpuCoreConfig { name: CoreName::ArmCortexA57, mpidr: 0x80000100, sched: SchedRule::RoundRobin },
            PlatCpuCoreConfig { name: CoreName::ArmCortexA57, mpidr: 0x80000101, sched: SchedRule::RoundRobin },
            PlatCpuCoreConfig { name: CoreName::ArmCortexA57, mpidr: 0x80000102, sched: SchedRule::RoundRobin },
            PlatCpuCoreConfig { name: CoreName::ArmCortexA57, mpidr: 0x80000103, sched: SchedRule::RoundRobin },
        ];
        let regions = vec![
            PlatMemRegion { base: 0x80000000, size: 0x10000000 },
            PlatMemRegion { base: 0x90000000, size: 0x60000000 },
            PlatMemRegion { base: 0xf0200000, size: 0x185600000 },
        ];
        let core_num = vec![4usize];
        assert(core_list@ =~= seq![
            PlatCpuCoreConfig { name: CoreName::ArmCortexA57, mpidr: 0x80000100, sched: SchedRule::RoundRobin },
            PlatCpuCoreConfig { name: CoreName::ArmCortexA57, mpidr: 0x80000101, sched: SchedRule::RoundRobin },
            PlatCpuCoreConfig { name: CoreName::ArmCortexA57, mpidr: 0x80000102, sched: SchedRule::RoundRobin },
            PlatCpuCoreConfig { name: CoreName::ArmCortexA57, mpidr: 0x80000103, sched: SchedRule::RoundRobin },
        ]);
        assert(regions@ =~= seq![
            PlatMemRegion { base: 0x80000000, size: 0x10000000 },
            PlatMemRegion { base: 0x90000000, size: 0x60000000 },
            PlatMemRegion { base: 0xf0200000, size: 0x185600000 },
        ]);
        assert(core_num@ =~= seq![4usize]);
        PlatformConfig {
            cpu_desc: PlatCpuConfig { num: 4, core_list, cluster_desc: ClusterDesc { num: 1, core_num } },
            mem_desc: PlatMemoryConfig { base: 0x80000000, regions },
            arch_desc: ArchDesc { gic_desc: GicDesc { gicd_addr: 0x3881000, gicc_addr: 0x3882000, gich_addr: 0x3884000, gicv_addr: 0x3886000, gicr_addr: 0, maintenance_int_id: 25 }, smmu_desc: SmmuDesc { base: 0x12000000, interrupt_id: 187, global_mask: 0x7f80 } },
        }
    }
}

impl Tx2Platform {
    /// The GIC CPU interface of CPU `cpuid`: the Cortex-A57 interfaces come
    /// after those of the platform's other cores, as many as it has.
    pub fn cpuid_to_cpuif(cpuid: usize) -> (r: usize)
        requires
            cpuid + 4 <= usize::MAX,
        ensures
            r == cpuid + 4,
    {
        cpuid + 4
    }

    /// The CPU of GIC CPU interface `cpuif`.
    pub fn cpuif_to_cpuid(cpuif: usize) -> (r: usize)
        requires
            cpuif >= 4,
        ensures
            r == cpuif - 4,
    {
        cpuif - 4
    }
}

} // verus!
