//! The QEMU virt machine with four Cortex-A57 cores.
use vstd::prelude::*;

use crate::arch::aarch64::gicv3::GicDesc;
use crate::arch::aarch64::smmu::{ArchDesc, SmmuDesc};
use crate::board::platform_common::{
    ClusterDesc, CoreName, PlatCpuConfig, PlatCpuCoreConfig, PlatMemRegion, PlatMemoryConfig, PlatOperation,
    PlatformConfig, SchedRule,
};

verus! {

pub const UART_2_ADDR: usize = 0x9110000;
pub const UART_0_ADDR: usize = 0x9000000;
pub const UART_1_ADDR: usize = 0x9100000;
pub const HYPERVISOR_UART_BASE: usize = 0x9000000;
pub const GICD_BASE: usize = 0x08000000;
pub const GICC_BASE: usize = 0x08010000;
pub const GICH_BASE: usize = 0x08030000;
pub const GICV_BASE: usize = 0x08040000;

/// The base of the GICv3 redistributors.
pub const GICR_BASE: usize = 0x080a0000;
pub const UART_0_INT: usize = 32 + 0x70;
pub const UART_1_INT: usize = 32 + 0x72;
pub const DISK_PARTITION_0_START: usize = 0;
pub const DISK_PARTITION_1_START: usize = 2097152;
pub const DISK_PARTITION_2_START: usize = 10289152;
pub const DISK_PARTITION_TOTAL_SIZE: usize = 18481152;
pub const DISK_PARTITION_0_SIZE: usize = 524288;
pub const DISK_PARTITION_1_SIZE: usize = 8192000;
pub const DISK_PARTITION_2_SIZE: usize = 8192000;

/// The QEMU virt machine with four Cortex-A57 cores.
pub struct QemuPlatform;

impl PlatOperation for QemuPlatform {
    const UART_0_ADDR: usize = self::UART_0_ADDR;
    const UART_1_ADDR: usize = self::UART_1_ADDR;
    const HYPERVISOR_UART_BASE: usize = self::HYPERVISOR_UART_BASE;
    const GICD_BASE: usize = self::GICD_BASE;
    const GICC_BASE: usize = self::GICC_BASE;
    const GICH_BASE: usize = self::GICH_BASE;
    const GICV_BASE: usize = self::GICV_BASE;

    fn plat_desc() -> (r: PlatformConfig)
        ensures
            r.cpu_desc.num == 4,
            r.cpu_desc.core_list@ == seq![
                PlatCpuCoreConfig { name: CoreName::ArmCortexA57, mpidr: 0, sched: SchedRule::RoundRobin },
                PlatCpuCoreConfig { name: CoreName::ArmCortexA57, mpidr: 1, sched: SchedRule::RoundRobin },
                PlatCpuCoreConfig { name: CoreName::ArmCortexA57, mpidr: 2, sched: SchedRule::RoundRobin },
                PlatCpuCoreConfig { name: CoreName::ArmCortexA57, mpidr: 3, sched: SchedRule::RoundRobin },
            ],
            r.cpu_desc.cluster_desc.num == 1,
            r.cpu_desc.cluster_desc.core_num@ == seq![4usize],
            r.mem_desc.base == 0x40000000,
            r.mem_desc.regions@ == seq![
                PlatMemRegion { base: 0x40000000, size: 0x08000000 },
                PlatMemRegion { base: 0x50000000, size: 0x1f0000000 },
            ],
            r.arch_desc == (ArchDesc { gic_desc: GicDesc { gicd_addr: 0x08000000, gicc_addr: 0x08010000, gich_addr: 0x08030000, gicv_addr: 0x08040000, gicr_addr: 0x080a0000, maintenance_int_id: 25 }, smmu_desc: SmmuDesc { base: 0, interrupt_id: 0, global_mask: 0 } }),
    {
        let core_list = vec![
            PlatCpuCoreConfig { name: CoreName::ArmCortexA57, mpidr: 0, sched: SchedRule::RoundRobin },
            PlatCpuCoreConfig { name: CoreName::ArmCortexA57, mpidr: 1, sched: SchedRule::RoundRobin },
            PlatCpuCoreConfig { name: CoreName::ArmCortexA57, mpidr: 2, sched: SchedRule::RoundRobin },
            PlatCpuCoreConfig { name: CoreName::ArmCortexA57, mpidr: 3, sched: SchedRule::RoundRobin },
        ];
        let regions = vec![
            PlatMemRegion { base: 0x40000000, size: 0x08000000 },
            PlatMemRegion { base: 0x50000000, size: 0x1f0000000 },
        ];
        let core_num = vec![4usize];
        assert(core_list@ =~= seq![
            PlatCpuCoreConfig { name: CoreName::ArmCortexA57, mpidr: 0, sched: SchedRule::RoundRobin },
            PlatCpuCoreConfig { name: CoreName::ArmCortexA57, mpidr: 1, sched: SchedRule::RoundRobin },
            PlatCpuCoreConfig { name: CoreName::ArmCortexA57, mpidr: 2, sched: SchedRule::RoundRobin },
            PlatCpuCoreConfig { name: CoreName::ArmCortexA57, mpidr: 3, sched: SchedRule::RoundRobin },
        ]);
        assert(regions@ =~= seq![
            PlatMemRegion { base: 0x40000000, size: 0x08000000 },
            PlatMemRegion { base: 0x50000000, size: 0x1f0000000 },
        ]);
        assert(core_num@ =~= seq![4usize]);
        PlatformConfig {
            cpu_desc: PlatCpuConfig { num: 4, core_list, cluster_desc: ClusterDesc { num: 1, core_num } },
            mem_desc: PlatMemoryConfig { base: 0x40000000, regions },
            arch_desc: ArchDesc { gic_desc: GicDesc { gicd_addr: 0x08000000, gicc_addr: 0x08010000, gich_addr: 0x08030000, gicv_addr: 0x08040000, gicr_addr: 0x080a0000, maintenance_int_id: 25 }, smmu_desc: SmmuDesc { base: 0, interrupt_id: 0, global_mask: 0 } },
        }
    }
}

impl QemuPlatform {
    /// The GIC CPU interface of CPU `cpuid`: the same number.
    pub fn cpuid_to_cpuif(cpuid: usize) -> (r: usize)
        ensures
            r == cpuid,
    {
        cpuid
    }

    /// The CPU of GIC CPU interface `cpuif`: the same number.
    pub fn cpuif_to_cpuid(cpuif: usize) -> (r: usize)
        ensures
            r == cpuif,
    {
        cpuif
    }

    /// The CPU id of the core with affinity value `mpidr` (bit 31 cleared
    /// before the search), or `usize::MAX` if none.
    pub fn mpidr2cpuid(cpu: &PlatCpuConfig, mpidr: usize) -> (r: usize)
        requires
            cpu.num <= cpu.core_list@.len(),
        ensures
            r == crate::board::platform_common::core_index_of(cpu.core_list@, cpu.num as nat, mpidr & !0x8000_0000usize),
    {
        crate::board::platform_common::find_core_by_mpidr(cpu, mpidr & !0x8000_0000usize)
    }
}

} // verus!
