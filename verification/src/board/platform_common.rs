//! What every platform describes: its CPU cores and clusters, its memory, and
//! the addresses of its UARTs and interrupt controller.
use vstd::prelude::*;

use crate::arch::aarch64::smmu::ArchDesc;

verus! {

pub const PLATFORM_CPU_NUM_MAX: usize = 8;

/// How the cores of a CPU are scheduled.
#[derive(Clone, Copy, PartialEq, Eq, Structural, Debug)]
pub enum SchedRule {
    /// Round-robin scheduling
    RoundRobin,
    /// No specific scheduling rule
    NoRule,
}

/// The kind of a CPU core.
#[derive(Clone, Copy, PartialEq, Eq, Structural, Debug)]
pub enum CoreName {
    ArmCortexA57,
    ArmNvidiaDenver,
    ArmCortexA55,
    ArmCortexA76,
}

/// A region of physical memory. Addresses and sizes are 64-bit: platforms
/// have memory above 4 GiB.
#[derive(Clone, Copy, PartialEq, Eq, Structural, Debug)]
pub struct PlatMemRegion {
    pub base: u64,
    pub size: u64,
}

/// The memory of a platform: where the hypervisor's memory starts, and the regions.
pub struct PlatMemoryConfig {
    pub base: u64,
    pub regions: Vec<PlatMemRegion>,
}

/// One CPU core: its kind, its affinity register value, and its scheduling.
#[derive(Clone, Copy, PartialEq, Eq, Structural, Debug)]
pub struct PlatCpuCoreConfig {
    pub name: CoreName,
    pub mpidr: usize,
    pub sched: SchedRule,
}

/// The clusters of a CPU: how many, and how many cores each has.
pub struct ClusterDesc {
    pub num: usize,
    pub core_num: Vec<usize>,
}

/// The CPU of a platform: its cores and clusters.
pub struct PlatCpuConfig {
    pub num: usize,
    pub core_list: Vec<PlatCpuCoreConfig>,
    pub cluster_desc: ClusterDesc,
}

/// A whole platform description.
pub struct PlatformConfig {
    pub cpu_desc: PlatCpuConfig,
    pub mem_desc: PlatMemoryConfig,
    pub arch_desc: ArchDesc,
}

/// The addresses every platform gives: its UARTs, the hypervisor's UART, and
/// the GIC's frames.
pub trait PlatOperation {
    const UART_0_ADDR: usize;
    const UART_1_ADDR: usize;
    const HYPERVISOR_UART_BASE: usize;
    const GICD_BASE: usize;
    const GICC_BASE: usize;
    const GICH_BASE: usize;
    const GICV_BASE: usize;

    /// The platform's description.
    fn plat_desc() -> PlatformConfig;
}

/// The index of the first of the first `cpu.num` cores whose affinity value is
/// `mpidr`, or `usize::MAX` if none.
pub open spec fn core_index_of(cores: Seq<PlatCpuCoreConfig>, num: nat, mpidr: usize) -> int {
    if exists|i: int| 0 <= i < num && #[trigger] cores[i].mpidr == mpidr {
        choose|i: int| 0 <= i < num && cores[i].mpidr == mpidr && forall|j: int| 0 <= j < i ==> cores[j].mpidr != mpidr
    } else {
        usize::MAX as int
    }
}

/// Finds the core whose affinity value is `mpidr` among the first `cpu.num`:
/// its index, or `usize::MAX` if none.
pub fn find_core_by_mpidr(cpu: &PlatCpuConfig, mpidr: usize) -> (r: usize)
    requires
        cpu.num <= cpu.core_list@.len(),
    ensures
        r == core_index_of(cpu.core_list@, cpu.num as nat, mpidr),
        r != usize::MAX ==> r < cpu.num && cpu.core_list@[r as int].mpidr == mpidr,
{
    let mut i: usize = 0;
    while i < cpu.num
        invariant
            i <= cpu.num,
            cpu.num <= cpu.core_list@.len(),
            forall|j: int| 0 <= j < i ==> cpu.core_list@[j].mpidr != mpidr,
        decreases cpu.num - i,
    {
        if cpu.core_list[i].mpidr == mpidr {
            proof {
                let c = choose|c: int| 0 <= c < cpu.num && cpu.core_list@[c].mpidr == mpidr && forall|j: int| 0 <= j < c ==> cpu.core_list@[j].mpidr != mpidr;
                assert(0 <= i < cpu.num && #[trigger] cpu.core_list@[i as int].mpidr == mpidr && forall|j: int| 0 <= j < i ==> cpu.core_list@[j].mpidr != mpidr);
                if c < i {
                    assert(cpu.core_list@[c].mpidr != mpidr);
                }
                if i < c {
                    assert(cpu.core_list@[i as int].mpidr != mpidr);
                }
            }
            return i;
        }
        i = i + 1;
    }
    usize::MAX
}

/// The CPU id of the core with affinity value `mpidr` (bit 31, which reads as
/// set, is set before the search), or `usize::MAX` if none.
pub fn mpidr2cpuid(cpu: &PlatCpuConfig, mpidr: usize) -> (r: usize)
    requires
        cpu.num <= cpu.core_list@.len(),
    ensures
        r == core_index_of(cpu.core_list@, cpu.num as nat, mpidr | 0x8000_0000),
{
    find_core_by_mpidr(cpu, mpidr | 0x8000_0000)
}

/// The affinity value of CPU `cpuid`.
pub fn cpuid2mpidr(cpu: &PlatCpuConfig, cpuid: usize) -> (r: usize)
    requires
        cpuid < cpu.core_list@.len(),
    ensures
        r == cpu.core_list@[cpuid as int].mpidr,
{
    cpu.core_list[cpuid].mpidr
}

/// The virtual CPU id in a virtual affinity value: its low byte.
pub fn vmpidr2vcpuid(vmpidr: usize) -> (r: usize)
    ensures
        r == vmpidr % 256,
{
    let r = vmpidr & 0xff;
    assert(r == vmpidr % 256) by (bit_vector)
        requires
            r == vmpidr & 0xffusize,
    ;
    r
}

} // verus!
