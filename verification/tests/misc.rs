use shyper::arch::aarch64::context_frame::{Aarch64ContextFrame, GicContext, VmCtxFpsimd};
use shyper::arch::traits::ContextFrameTrait;
use shyper::arch::aarch64::interface::Aarch64Arch;
use shyper::arch::aarch64::mmu::{block_new, block_table, MemoryType};
use shyper::arch::aarch64::regs::sysreg_enc_addr;
use shyper::board::pi4::Pi4Platform;
use shyper::board::platform_common::{
    cpuid2mpidr, find_core_by_mpidr, mpidr2cpuid, vmpidr2vcpuid, PlatMemRegion, PlatOperation,
};
use shyper::board::qemu::QemuPlatform;
use shyper::board::rk3588::Rk3588Platform;
use shyper::board::tx2::Tx2Platform;
use shyper::utils::interval::{Interval, IntervalExcluder};

#[test]
fn qemu_platform_description() {
    let p = QemuPlatform::plat_desc();
    assert_eq!(p.cpu_desc.num, 4);
    assert_eq!(p.cpu_desc.core_list[3].mpidr, 3);
    assert_eq!(p.mem_desc.base, 0x4000_0000);
    assert_eq!(p.mem_desc.regions[1], PlatMemRegion { base: 0x5000_0000, size: 0x1_f000_0000 });
    assert_eq!(QemuPlatform::mpidr2cpuid(&p.cpu_desc, 0x8000_0002), 2);
    assert_eq!(QemuPlatform::mpidr2cpuid(&p.cpu_desc, 9), usize::MAX);
    assert_eq!(QemuPlatform::cpuid_to_cpuif(2), 2);
    assert_eq!(QemuPlatform::cpuif_to_cpuid(2), 2);
}

#[test]
fn tx2_core_lookup() {
    let p = Tx2Platform::plat_desc();
    assert_eq!(mpidr2cpuid(&p.cpu_desc, 0x101), 1);
    assert_eq!(find_core_by_mpidr(&p.cpu_desc, 0x8000_0103), 3);
    assert_eq!(find_core_by_mpidr(&p.cpu_desc, 0x103), usize::MAX);
    assert_eq!(cpuid2mpidr(&p.cpu_desc, 2), 0x8000_0102);
    assert_eq!(Tx2Platform::cpuid_to_cpuif(1), 5);
    assert_eq!(Tx2Platform::cpuif_to_cpuid(5), 1);
}

#[test]
fn rk3588_affinity() {
    let p = Rk3588Platform::plat_desc();
    assert_eq!(p.cpu_desc.num, 8);
    assert_eq!(Rk3588Platform::mpidr2cpuid(0x8100_0300), 3);
    assert_eq!(Rk3588Platform::vmpidr2vcpuid(0x8100_0500), 5);
    assert_eq!(Rk3588Platform::cpuid_to_cpuif(&p.cpu_desc, 4), 0x8100_0400);
    assert_eq!(Rk3588Platform::cpuif_to_cpuid(4), 4);
}

#[test]
fn pi4_and_common() {
    assert_eq!(Pi4Platform::cpuid_to_cpuif(3), 3);
    assert_eq!(Pi4Platform::cpuif_to_cpuid(3), 3);
    assert_eq!(vmpidr2vcpuid(0x8000_0203), 3);
}

#[test]
fn boot_descriptors() {
    assert_eq!(block_new(0x4000_0000, MemoryType::Normal), 0x4000_0000 | 0x400 | 0x300 | 0x4 | 1);
    assert_eq!(block_new(0x0800_0000, MemoryType::Device), 0x0800_0000 | 0x400 | 0x200 | 1);
    assert_eq!(block_table(0x4008_1234), 0x4008_1000 | 3);
}

#[test]
fn system_register_encoding() {
    // ICC_SGI1R_EL1: op0 3, op1 0, CRn 12, CRm 11, op2 5
    assert_eq!(sysreg_enc_addr(3, 0, 12, 11, 5), (3 << 20) | (5 << 17) | (12 << 10) | (11 << 1));
    assert_eq!(sysreg_enc_addr(7, 8, 16, 16, 8), (3 << 20) | (0 << 17) | (0 << 14) | 0);
}

#[test]
fn vttbr_value() {
    assert_eq!(Aarch64Arch::vttbr(0x8000_0000, 3), (3u64 << 48) | 0x8000_0000);
}

#[test]
fn interval_exclusion() {
    let mut ex = IntervalExcluder::new();
    ex.add_range(0, 100);
    ex.add_range(200, 300);
    ex.exclude_range(50, 250);
    assert_eq!(ex.intervals, vec![Interval { left: 0, right: 50 }, Interval { left: 250, right: 300 }]);
    ex.exclude_len(0, 10);
    assert_eq!(ex.intervals, vec![Interval { left: 10, right: 50 }, Interval { left: 250, right: 300 }]);
    ex.exclude_range(260, 270);
    assert_eq!(
        ex.intervals,
        vec![Interval { left: 10, right: 50 }, Interval { left: 250, right: 260 }, Interval { left: 270, right: 300 }]
    );
    ex.exclude_range(0, 1000);
    assert!(ex.intervals.is_empty());
    assert_eq!(Interval { left: 3, right: 10 }.len(), 7);
}

#[test]
fn aarch64_context_frame() {
    let mut f = Aarch64ContextFrame::new(0x4008_0000, 0x5000_0000, 7);
    assert_eq!(f.exception_pc(), 0x4008_0000);
    assert_eq!(f.stack_pointer(), 0x5000_0000);
    assert_eq!(f.gpr(0), 7);
    assert_eq!(f.spsr, 0x3c5);
    f.set_gpr(30, 9);
    assert_eq!(f.gpr(30), 9);
    f.set_exception_pc(0x10);
    f.set_stack_pointer(0x20);
    assert_eq!((f.elr, f.sp), (0x10, 0x20));
    assert_eq!(Aarch64ContextFrame::default().spsr, 0x3c5);
    let mut fp = VmCtxFpsimd::default();
    fp.fpsimd[3] = 1;
    fp.fpcr = 2;
    fp.reset();
    assert_eq!(fp.fpsimd, [0u64; 64]);
    assert_eq!(fp.fpcr, 0);
    let mut g = GicContext::default();
    g.add_irq(27, 0b1, 0xa0, 0x01);
    g.add_irq(65, 0b10, 0x80, 0x02);
    assert_eq!(g.irq_num, 2);
    assert_eq!((g.irq_state[0].id, g.irq_state[0].enable, g.irq_state[0].priority), (27, 1, 0xa0));
    assert_eq!((g.irq_state[1].id, g.irq_state[1].enable, g.irq_state[1].target), (65, 0, 0x02));
    g.set_gicv_ctlr(1);
    g.set_gicv_pmr(0xf0);
    assert_eq!((g.gicv_ctlr(), g.gicv_pmr()), (1, 0xf0));
}
